//! Line diff of two texts, computed by `similar`, with the colours each
//! kind of line is shown in.
use vstd::prelude::*;

verus! {

/// What a diff line does.
#[derive(PartialEq, Eq, Clone, Copy, Debug, Structural)]
pub enum DiffTag {
    Equal,
    Delete,
    Insert,
}

/// One line of a diff: its kind and its text (with its line break).
pub struct LineChange {
    pub tag: DiffTag,
    pub text: String,
}

pub struct LineChangeModel {
    pub tag: DiffTag,
    pub text: Seq<char>,
}

impl View for LineChange {
    type V = LineChangeModel;

    open spec fn view(&self) -> LineChangeModel {
        LineChangeModel { tag: self.tag, text: self.text@ }
    }
}

/// The changes that `TextDiff::from_lines(original, modified)
/// .iter_all_changes()` yields, each with `Change::to_string` as its text.
pub uninterp spec fn line_diff(original: Seq<char>, modified: Seq<char>) -> Seq<LineChangeModel>;

/// The text one side of a diff reads: the texts of the unchanged lines and
/// of the lines of kind `side` (deletions for the original text, insertions
/// for the modified one), in order.
pub open spec fn side_text(changes: Seq<LineChangeModel>, side: DiffTag) -> Seq<char>
    decreases changes.len(),
{
    if changes.len() == 0 {
        Seq::empty()
    } else {
        let last = changes.last();
        side_text(changes.drop_last(), side) + if last.tag == DiffTag::Equal || last.tag == side {
            last.text
        } else {
            Seq::empty()
        }
    }
}

/// A text whose last line ends in a line break: unchanged when it is empty
/// or ends in `\n` or `\r`, else with `\n` added.
pub open spec fn line_terminated(s: Seq<char>) -> Seq<char> {
    if s.len() == 0 || s.last() == '\n' || s.last() == '\r' {
        s
    } else {
        s.push('\n')
    }
}

/// `similar::TextDiff::from_lines` walked with `iter_all_changes`, each
/// change read by its tag and its `Display` text. Claimed: the named list;
/// and, as the changes cover both token lists in order and `Display` adds a
/// `\n` only to a last line without a line break, that the unchanged and
/// deleted lines spell the original text, and the unchanged and inserted
/// lines the modified one, each with its last line terminated.
#[verifier::external_body]
fn diff_lines(original: &str, modified: &str) -> (r: Vec<LineChange>)
    ensures
        r@.map_values(|c: LineChange| c@) == line_diff(original@, modified@),
        side_text(r@.map_values(|c: LineChange| c@), DiffTag::Delete) == line_terminated(original@),
        side_text(r@.map_values(|c: LineChange| c@), DiffTag::Insert) == line_terminated(modified@),
{
    let diff = similar::TextDiff::from_lines(original, modified);
    let mut out: Vec<LineChange> = Vec::new();
    for change in diff.iter_all_changes() {
        let tag = match change.tag() {
            similar::ChangeTag::Equal => DiffTag::Equal,
            similar::ChangeTag::Delete => DiffTag::Delete,
            similar::ChangeTag::Insert => DiffTag::Insert,
        };
        out.push(LineChange { tag, text: change.to_string() });
    }
    out
}

/// The colour of a diff line's text.
#[derive(PartialEq, Eq, Clone, Copy, Debug, Structural)]
pub enum LineColor {
    /// An opaque colour given by its red, green and blue parts.
    Rgb(u8, u8, u8),
    DarkRed,
    DarkGreen,
    LightGray,
    DarkGray,
}

/// A translucent background, by its red, green, blue and alpha parts (not
/// premultiplied).
#[derive(PartialEq, Eq, Clone, Copy, Debug, Structural)]
pub struct Background {
    pub r: u8,
    pub g: u8,
    pub b: u8,
    pub a: u8,
}

/// How a diff line is painted.
#[derive(PartialEq, Eq, Clone, Copy, Debug, Structural)]
pub struct LineStyle {
    pub background: Option<Background>,
    pub text: LineColor,
}

/// Deleted lines on a red tint, inserted lines on a green tint, unchanged
/// lines plain; text colours lighter in dark mode.
pub open spec fn line_style_spec(tag: DiffTag, dark_mode: bool) -> LineStyle {
    match tag {
        DiffTag::Delete => LineStyle {
            background: Some(Background { r: 255, g: 0, b: 0, a: 40 }),
            text: if dark_mode {
                LineColor::Rgb(255, 150, 150)
            } else {
                LineColor::DarkRed
            },
        },
        DiffTag::Insert => LineStyle {
            background: Some(Background { r: 0, g: 255, b: 0, a: 40 }),
            text: if dark_mode {
                LineColor::Rgb(150, 255, 150)
            } else {
                LineColor::DarkGreen
            },
        },
        DiffTag::Equal => LineStyle {
            background: None,
            text: if dark_mode {
                LineColor::LightGray
            } else {
                LineColor::DarkGray
            },
        },
    }
}

/// In either mode deleted lines are painted on a red tint and inserted lines
/// on a green one, unchanged lines on no tint; the three kinds differ in
/// text colour as well, so no two kinds look alike.
pub proof fn law_line_styles(dark_mode: bool)
    ensures
        line_style_spec(DiffTag::Delete, dark_mode).background == Some(Background { r: 255, g: 0, b: 0, a: 40 }),
        line_style_spec(DiffTag::Insert, dark_mode).background == Some(Background { r: 0, g: 255, b: 0, a: 40 }),
        line_style_spec(DiffTag::Equal, dark_mode).background is None,
        line_style_spec(DiffTag::Delete, dark_mode).text != line_style_spec(DiffTag::Insert, dark_mode).text,
        line_style_spec(DiffTag::Delete, dark_mode).text != line_style_spec(DiffTag::Equal, dark_mode).text,
        line_style_spec(DiffTag::Insert, dark_mode).text != line_style_spec(DiffTag::Equal, dark_mode).text,
        dark_mode ==> line_style_spec(DiffTag::Delete, dark_mode).text == LineColor::Rgb(255, 150, 150)
            && line_style_spec(DiffTag::Insert, dark_mode).text == LineColor::Rgb(150, 255, 150),
        !dark_mode ==> line_style_spec(DiffTag::Delete, dark_mode).text == LineColor::DarkRed
            && line_style_spec(DiffTag::Insert, dark_mode).text == LineColor::DarkGreen,
{
}

/// The style of a diff line.
pub fn line_style(tag: DiffTag, dark_mode: bool) -> (r: LineStyle)
    ensures
        r == line_style_spec(tag, dark_mode),
{
    match tag {
        DiffTag::Delete => LineStyle {
            background: Some(Background { r: 255, g: 0, b: 0, a: 40 }),
            text: if dark_mode {
                LineColor::Rgb(255, 150, 150)
            } else {
                LineColor::DarkRed
            },
        },
        DiffTag::Insert => LineStyle {
            background: Some(Background { r: 0, g: 255, b: 0, a: 40 }),
            text: if dark_mode {
                LineColor::Rgb(150, 255, 150)
            } else {
                LineColor::DarkGreen
            },
        },
        DiffTag::Equal => LineStyle {
            background: None,
            text: if dark_mode {
                LineColor::LightGray
            } else {
                LineColor::DarkGray
            },
        },
    }
}

/// A painted diff line.
pub struct StyledLine {
    pub text: String,
    pub style: LineStyle,
}

/// The painted lines agree with the diff, one for one.
pub open spec fn styled_diff(lines: Seq<StyledLine>, changes: Seq<LineChangeModel>, dark_mode: bool) -> bool {
    &&& lines.len() == changes.len()
    &&& forall|i: int|
        0 <= i < lines.len() ==> (#[trigger] lines[i]).text@ == changes[i].text && lines[i].style
            == line_style_spec(changes[i].tag, dark_mode)
}

/// The two texts and their painted diff, once computed.
pub struct DiffViewer {
    original: String,
    modified: String,
    output: Option<Vec<StyledLine>>,
}

impl DiffViewer {
    pub closed spec fn original_spec(&self) -> Seq<char> {
        self.original@
    }

    pub closed spec fn modified_spec(&self) -> Seq<char> {
        self.modified@
    }

    pub closed spec fn output_spec(&self) -> Option<Seq<StyledLine>> {
        match self.output {
            Some(v) => Some(v@),
            None => None,
        }
    }

    /// The state a fresh tool starts in.
    pub open spec fn is_fresh(&self) -> bool {
        &&& (self.original_spec() == "Original text\nWith some lines\nTo be removed"@)
        &&& (self.modified_spec() == "Original text\nWith extra lines\nAdded here"@)
        &&& (self.output_spec() is None)
    }

    /// The sample texts, not yet compared.
    pub fn new() -> (r: Self)
        ensures
            r.is_fresh(),
            r.original_spec() == "Original text\nWith some lines\nTo be removed"@,
            r.modified_spec() == "Original text\nWith extra lines\nAdded here"@,
            r.output_spec() is None,
    {
        DiffViewer {
            original: String::from_str("Original text\nWith some lines\nTo be removed"),
            modified: String::from_str("Original text\nWith extra lines\nAdded here"),
            output: None,
        }
    }

    /// Compare the texts line by line and paint the result.
    pub fn compute_diff(&mut self, dark_mode: bool)
        ensures
            final(self).original_spec() == old(self).original_spec(),
            final(self).modified_spec() == old(self).modified_spec(),
            final(self).output_spec() matches Some(lines) && styled_diff(
                lines,
                line_diff(old(self).original_spec(), old(self).modified_spec()),
                dark_mode,
            ),
            side_text(line_diff(old(self).original_spec(), old(self).modified_spec()), DiffTag::Delete)
                == line_terminated(old(self).original_spec()),
            side_text(line_diff(old(self).original_spec(), old(self).modified_spec()), DiffTag::Insert)
                == line_terminated(old(self).modified_spec()),
    {
        let changes = diff_lines(self.original.as_str(), self.modified.as_str());
        let ghost model = changes@.map_values(|c: LineChange| c@);
        let mut lines: Vec<StyledLine> = Vec::new();
        let mut i: usize = 0;
        while i < changes.len()
            invariant
                i <= changes@.len(),
                model == changes@.map_values(|c: LineChange| c@),
                lines@.len() == i,
                forall|k: int|
                    0 <= k < i ==> (#[trigger] lines@[k]).text@ == model[k].text && lines@[k].style
                        == line_style_spec(model[k].tag, dark_mode),
            decreases changes@.len() - i,
        {
            let change = &changes[i];
            let style = line_style(change.tag, dark_mode);
            let text = change.text.clone();
            proof {
                assert(model[i as int] == changes@[i as int]@);
            }
            lines.push(StyledLine { text, style });
            i += 1;
        }
        self.output = Some(lines);
    }

    /// Replace the original text (the diff is recomputed by the caller).
    pub fn set_original(&mut self, text: &str)
        ensures
            final(self).original_spec() == text@,
            final(self).modified_spec() == old(self).modified_spec(),
            final(self).output_spec() == old(self).output_spec(),
    {
        self.original = String::from_str(text);
    }

    /// Replace the modified text (the diff is recomputed by the caller).
    pub fn set_modified(&mut self, text: &str)
        ensures
            final(self).modified_spec() == text@,
            final(self).original_spec() == old(self).original_spec(),
            final(self).output_spec() == old(self).output_spec(),
    {
        self.modified = String::from_str(text);
    }

    pub fn original(&self) -> (r: &str)
        ensures
            r@ == self.original_spec(),
    {
        self.original.as_str()
    }

    pub fn modified(&self) -> (r: &str)
        ensures
            r@ == self.modified_spec(),
    {
        self.modified.as_str()
    }

    /// The painted diff, if computed.
    pub fn output(&self) -> (r: Option<&Vec<StyledLine>>)
        ensures
            match r {
                Some(v) => self.output_spec() == Some(v@),
                None => self.output_spec() is None,
            },
    {
        match &self.output {
            Some(v) => Some(v),
            None => None,
        }
    }
}

} // verus!
