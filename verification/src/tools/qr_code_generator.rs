//! QR codes for text, encoded by the `qrcode` crate and scaled up into a
//! black-and-white pixel image.
use crate::text::utf8_bytes;
use vstd::prelude::*;
use vstd::utf8::*;

verus! {

/// A QR symbol: the number of modules per side and the modules row by row,
/// `true` for dark.
pub struct QrMatrix {
    pub width: usize,
    pub modules: Vec<bool>,
}

pub struct QrMatrixModel {
    pub width: nat,
    pub modules: Seq<bool>,
}

impl View for QrMatrix {
    type V = QrMatrixModel;

    open spec fn view(&self) -> QrMatrixModel {
        QrMatrixModel { width: self.width as nat, modules: self.modules@ }
    }
}

/// What `QrCode::new` makes of some bytes: the symbol, or the `Display` text
/// of its error.
pub uninterp spec fn qr_encoding(data: Seq<u8>) -> Result<QrMatrixModel, Seq<char>>;

pub open spec fn qr_result_view(r: Result<QrMatrix, String>) -> Result<QrMatrixModel, Seq<char>> {
    match r {
        Ok(m) => Ok(m@),
        Err(e) => Err(e@),
    }
}

/// A symbol of a normal QR version (1 to 40): 21 to 177 modules per side,
/// and one module per position.
pub open spec fn well_shaped(m: QrMatrixModel) -> bool {
    &&& 21 <= m.width <= 177
    &&& m.modules.len() == m.width * m.width
}

/// `QrCode::new` (error correction level M, smallest fitting version), read
/// out by `width` and `to_colors`. Claimed: the result is the named encoding;
/// a symbol has a normal version's width (`with_bits` takes it from
/// `Version::Normal(v).width()`, `v * 4 + 17` for `v` in 1..=40) and a
/// canvas of width × width modules, row by row as `Index<(x, y)>` reads them.
#[verifier::external_body]
fn qr_encode(data: &[u8]) -> (r: Result<QrMatrix, String>)
    ensures
        qr_result_view(r) == qr_encoding(data@),
        r matches Ok(m) ==> well_shaped(m@),
{
    match qrcode::QrCode::new(data) {
        Ok(code) => {
            let colors = code.to_colors();
            let mut modules: Vec<bool> = Vec::new();
            let mut i: usize = 0;
            while i < colors.len() {
                modules.push(colors[i] == qrcode::Color::Dark);
                i += 1;
            }
            Ok(QrMatrix { width: code.width(), modules })
        },
        Err(e) => Err(e.to_string()),
    }
}

/// How many pixels a module spans on each side.
pub const SCALE: usize = 4;

/// Whether the pixel at (row, column) of the scaled image is dark: the
/// module that the pixel lies in.
pub open spec fn pixel_dark(m: QrMatrixModel, scale: nat, row: int, col: int) -> bool {
    m.modules[(row / scale as int) * m.width + col / scale as int]
}

/// A scaled image of a symbol: `width * scale` rows of `width * scale`
/// pixels, each the module it lies in.
pub open spec fn scaled_image_of(rows: Seq<Seq<bool>>, m: QrMatrixModel, scale: nat) -> bool {
    &&& rows.len() == m.width * scale
    &&& forall|r: int|
        0 <= r < rows.len() ==> (#[trigger] rows[r]).len() == m.width * scale && forall|c: int|
            0 <= c < m.width * scale ==> rows[r][c] == pixel_dark(m, scale, r, c)
}

/// One pixel row of the scaled image.
fn scaled_row(m: &QrMatrix, scale: usize, row: usize) -> (r: Vec<bool>)
    requires
        well_shaped(m@),
        1 <= scale <= SCALE,
        row < m.width * scale,
    ensures
        r@.len() == m.width * scale,
        forall|c: int| 0 <= c < m.width * scale ==> r@[c] == pixel_dark(m@, scale as nat, row as int, c),
{
    let w = m.width;
    let y = row / scale;
    proof {
        assert(y < w) by (nonlinear_arith)
            requires
                1 <= scale,
                row < w * scale,
                y == row / scale,
        ;
        assert(y * w + w <= w * w) by (nonlinear_arith)
            requires
                y < w,
        ;
    }
    let mut out: Vec<bool> = Vec::new();
    let mut x: usize = 0;
    while x < w
        invariant
            well_shaped(m@),
            w == m.width,
            1 <= scale <= SCALE,
            y == row / scale,
            y * w + w <= w * w,
            x <= w,
            out@.len() == x * scale,
            forall|c: int| 0 <= c < out@.len() ==> out@[c] == pixel_dark(m@, scale as nat, row as int, c),
        decreases w - x,
    {
        proof {
            assert(w * w <= 177 * 177) by (nonlinear_arith)
                requires
                    w <= 177,
            ;
        }
        let dark = m.modules[y * w + x];
        let mut k: usize = 0;
        while k < scale
            invariant
                well_shaped(m@),
                w == m.width,
                1 <= scale <= SCALE,
                y == row / scale,
                y * w + w <= w * w,
                x < w,
                k <= scale,
                dark == m@.modules[y * w + x],
                out@.len() == x * scale + k,
                forall|c: int| 0 <= c < out@.len() ==> out@[c] == pixel_dark(m@, scale as nat, row as int, c),
            decreases scale - k,
        {
            proof {
                let c = x * scale + k;
                assert(c / (scale as int) == x) by (nonlinear_arith)
                    requires
                        c == x * scale + k,
                        k < scale,
                        1 <= scale,
                ;
            }
            out.push(dark);
            k += 1;
        }
        proof {
            assert(x * scale + scale == (x + 1) * scale) by (nonlinear_arith);
        }
        x += 1;
    }
    out
}

/// Scale a symbol up: each module becomes a `scale` × `scale` block.
pub fn scale_modules(m: &QrMatrix, scale: usize) -> (r: Vec<Vec<bool>>)
    requires
        well_shaped(m@),
        1 <= scale <= SCALE,
    ensures
        scaled_image_of(r@.map_values(|v: Vec<bool>| v@), m@, scale as nat),
{
    proof {
        assert(m.width * scale <= 177 * 4) by (nonlinear_arith)
            requires
                m.width <= 177,
                scale <= 4,
        ;
    }
    let size = m.width * scale;
    let mut rows: Vec<Vec<bool>> = Vec::new();
    let mut r: usize = 0;
    while r < size
        invariant
            well_shaped(m@),
            1 <= scale <= SCALE,
            size == m.width * scale,
            r <= size,
            rows@.len() == r,
            forall|i: int|
                0 <= i < r ==> (#[trigger] rows@[i])@.len() == size && forall|c: int|
                    0 <= c < size ==> rows@[i]@[c] == pixel_dark(m@, scale as nat, i, c),
        decreases size - r,
    {
        let row = scaled_row(m, scale, r);
        rows.push(row);
        r += 1;
    }
    proof {
        let v = rows@.map_values(|v: Vec<bool>| v@);
        assert forall|i: int| 0 <= i < v.len() implies (#[trigger] v[i]).len() == m@.width * scale
            && forall|c: int| 0 <= c < m@.width * scale ==> v[i][c] == pixel_dark(m@, scale as nat, i, c) by {
            assert(v[i] == rows@[i]@);
        }
    }
    rows
}

/// A scaled QR image: its side in pixels and its pixel rows (`true` dark).
pub struct QrImage {
    pub size: usize,
    pub rows: Vec<Vec<bool>>,
}

/// The image the generator shows for a symbol.
pub open spec fn shows_symbol(img: QrImage, m: QrMatrixModel) -> bool {
    &&& img.size == m.width * SCALE
    &&& scaled_image_of(img.rows@.map_values(|v: Vec<bool>| v@), m, SCALE as nat)
}

/// The generator: the text, its image and the encoding error.
pub struct QrCodeGenerator {
    text: String,
    image: Option<QrImage>,
    error: Option<String>,
}

impl QrCodeGenerator {
    pub closed spec fn text_spec(&self) -> Seq<char> {
        self.text@
    }

    pub closed spec fn image_spec(&self) -> Option<QrImage> {
        self.image
    }

    pub closed spec fn error_spec(&self) -> Option<Seq<char>> {
        match self.error {
            Some(e) => Some(e@),
            None => None,
        }
    }

    /// The state a fresh tool starts in.
    pub open spec fn is_fresh(&self) -> bool {
        &&& (self.text_spec() == Seq::<char>::empty())
        &&& (self.image_spec() is None)
        &&& (self.error_spec() is None)
    }

    /// No text, no image, no error.
    pub fn new() -> (r: Self)
        ensures
            r.is_fresh(),
            r.text_spec() == Seq::<char>::empty(),
            r.image_spec() is None,
            r.error_spec() is None,
    {
        QrCodeGenerator { text: String::new(), image: None, error: None }
    }

    /// Encode the text's UTF-8 bytes: no image for an empty text; the scaled
    /// symbol when the encoder makes one; otherwise no image and the error
    /// "Error generating QR code: ...".
    pub fn generate(&mut self)
        ensures
            final(self).text_spec() == old(self).text_spec(),
            old(self).text_spec().len() == 0 ==> final(self).image_spec() is None
                && final(self).error_spec() is None,
            old(self).text_spec().len() > 0 ==> match qr_encoding(encode_utf8(old(self).text_spec())) {
                Ok(m) => {
                    &&& final(self).error_spec() is None
                    &&& final(self).image_spec() matches Some(img) && shows_symbol(img, m)
                },
                Err(e) => {
                    &&& final(self).image_spec() is None
                    &&& final(self).error_spec() == Some("Error generating QR code: "@ + e)
                },
            },
    {
        if self.text.as_str().is_empty() {
            self.image = None;
            self.error = None;
            return;
        }
        let bytes = utf8_bytes(self.text.as_str());
        match qr_encode(bytes.as_slice()) {
            Ok(m) => {
                let rows = scale_modules(&m, SCALE);
                self.image = Some(QrImage { size: m.width * SCALE, rows });
                self.error = None;
            },
            Err(e) => {
                self.image = None;
                self.error = Some(String::from_str("Error generating QR code: ").concat(e.as_str()));
            },
        }
    }

    /// Replace the text and encode it again (what typing does).
    pub fn set_text(&mut self, text: &str)
        ensures
            final(self).text_spec() == text@,
            text@.len() == 0 ==> final(self).image_spec() is None && final(self).error_spec() is None,
            text@.len() > 0 ==> match qr_encoding(encode_utf8(text@)) {
                Ok(m) => {
                    &&& final(self).error_spec() is None
                    &&& final(self).image_spec() matches Some(img) && shows_symbol(img, m)
                },
                Err(e) => {
                    &&& final(self).image_spec() is None
                    &&& final(self).error_spec() == Some("Error generating QR code: "@ + e)
                },
            },
    {
        self.text = String::from_str(text);
        self.generate();
    }

    pub fn text(&self) -> (r: &str)
        ensures
            r@ == self.text_spec(),
    {
        self.text.as_str()
    }

    pub fn image(&self) -> (r: Option<&QrImage>)
        ensures
            match r {
                Some(img) => self.image_spec() == Some(*img),
                None => self.image_spec() is None,
            },
    {
        match &self.image {
            Some(img) => Some(img),
            None => None,
        }
    }

    pub fn error(&self) -> (r: Option<&str>)
        ensures
            match r {
                Some(e) => self.error_spec() == Some(e@),
                None => self.error_spec() is None,
            },
    {
        match &self.error {
            Some(e) => Some(e.as_str()),
            None => None,
        }
    }
}

} // verus!
