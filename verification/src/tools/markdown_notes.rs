//! Markdown notes: the notes, the lightweight index shown in the sidebar,
//! the active note and its content, title search.
use crate::clock::{utc_now, UtcTime};
use crate::text::{chars_of, contains_chars, contains_spec};
use crate::tools::uuid_generator::new_v4_id;
use vstd::prelude::*;

verus! {

/// Which pane the narrow layout shows.
#[derive(PartialEq, Eq, Clone, Copy, Debug, Structural)]
pub enum NarrowTab {
    Edit,
    Preview,
}

/// A full note.
pub struct Note {
    pub id: u128,
    pub title: String,
    pub content: String,
    pub created_at: UtcTime,
    pub modified_at: UtcTime,
}

pub struct NoteModel {
    pub id: u128,
    pub title: Seq<char>,
    pub content: Seq<char>,
    pub created_at: UtcTime,
    pub modified_at: UtcTime,
}

impl View for Note {
    type V = NoteModel;

    open spec fn view(&self) -> NoteModel {
        NoteModel {
            id: self.id,
            title: self.title@,
            content: self.content@,
            created_at: self.created_at,
            modified_at: self.modified_at,
        }
    }
}

/// The sidebar's entry for a note.
pub struct NoteIndex {
    pub id: u128,
    pub title: String,
    pub created_at: UtcTime,
    pub modified_at: UtcTime,
}

pub struct NoteIndexModel {
    pub id: u128,
    pub title: Seq<char>,
    pub created_at: UtcTime,
    pub modified_at: UtcTime,
}

impl View for NoteIndex {
    type V = NoteIndexModel;

    open spec fn view(&self) -> NoteIndexModel {
        NoteIndexModel {
            id: self.id,
            title: self.title@,
            created_at: self.created_at,
            modified_at: self.modified_at,
        }
    }
}

/// The notes tool.
pub struct MarkdownNotes {
    notes: Vec<Note>,
    active_note_id: Option<u128>,
    note_index: Vec<NoteIndex>,
    active_content: Option<String>,
    native_index_synced: bool,
    search_query: String,
    narrow_tab: NarrowTab,
}

// ---------------------------------------------------------------------------
// Specifications
// ---------------------------------------------------------------------------

/// The sidebar entry that describes a note.
pub open spec fn entry_of(n: NoteModel) -> NoteIndexModel {
    NoteIndexModel { id: n.id, title: n.title, created_at: n.created_at, modified_at: n.modified_at }
}

/// The index lists the notes, in their order, by the same id, title and
/// creation time.
pub open spec fn index_mirrors(notes: Seq<NoteModel>, index: Seq<NoteIndexModel>) -> bool {
    &&& notes.len() == index.len()
    &&& forall|i: int|
        0 <= i < notes.len() ==> (#[trigger] index[i]).id == notes[i].id && index[i].title
            == notes[i].title && index[i].created_at == notes[i].created_at
}

/// The position of the first note with the given id.
pub open spec fn first_note(notes: Seq<NoteModel>, id: u128) -> Option<int>
    decreases notes.len(),
{
    if notes.len() == 0 {
        None
    } else if notes[0].id == id {
        Some(0)
    } else {
        match first_note(notes.drop_first(), id) {
            Some(i) => Some(i + 1),
            None => None,
        }
    }
}

/// The position of the first index entry with the given id.
pub open spec fn first_entry(index: Seq<NoteIndexModel>, id: u128) -> Option<int>
    decreases index.len(),
{
    if index.len() == 0 {
        None
    } else if index[0].id == id {
        Some(0)
    } else {
        match first_entry(index.drop_first(), id) {
            Some(i) => Some(i + 1),
            None => None,
        }
    }
}

/// The content of the first note with the given id, if any.
pub open spec fn content_of(notes: Seq<NoteModel>, id: u128) -> Option<Seq<char>> {
    match first_note(notes, id) {
        Some(i) => Some(notes[i].content),
        None => None,
    }
}

/// `str::to_lowercase` of a text.
pub uninterp spec fn lowercase(s: Seq<char>) -> Seq<char>;

/// `str::to_lowercase`. Claimed: the result is the named lowercase form,
/// which depends on the text alone.
#[verifier::external_body]
pub(crate) fn to_lowercase(s: &str) -> (r: String)
    ensures
        r@ == lowercase(s@),
{
    s.to_lowercase()
}

/// A title matches a search: the search is empty, or the lowercased title
/// contains the lowercased search.
pub open spec fn title_matches(title: Seq<char>, query: Seq<char>) -> bool {
    query.len() == 0 || contains_spec(lowercase(title), lowercase(query))
}

/// Positions of the index entries whose titles match the search, in order.
pub open spec fn matching_positions(index: Seq<NoteIndexModel>, query: Seq<char>) -> Seq<usize>
    decreases index.len(),
{
    if index.len() == 0 {
        Seq::empty()
    } else {
        let rest = matching_positions(index.drop_last(), query);
        if title_matches(index.last().title, query) {
            rest.push((index.len() - 1) as usize)
        } else {
            rest
        }
    }
}

/// The search over an index (as long as a `Vec` can be) lists positions in
/// increasing order, each below the index length, and lists position `p` exactly when the search is empty or
/// the lowercased search occurs in the lowercased title of entry `p`, at any
/// position of it.
pub proof fn law_search_finds_substrings(index: Seq<NoteIndexModel>, query: Seq<char>)
    requires
        index.len() <= usize::MAX,
    ensures
        forall|i: int, j: int|
            0 <= i < j < matching_positions(index, query).len() ==> #[trigger] matching_positions(
                index,
                query,
            )[i] < #[trigger] matching_positions(index, query)[j],
        forall|i: int|
            0 <= i < matching_positions(index, query).len() ==> #[trigger] matching_positions(
                index,
                query,
            )[i] < index.len(),
        forall|p: int|
            0 <= p < index.len() ==> (#[trigger] matching_positions(index, query).contains(p as usize) <==> (
            query.len() == 0 || exists|i: int|
                0 <= i && i + lowercase(query).len() <= lowercase(index[p].title).len()
                    && #[trigger] lowercase(index[p].title).subrange(i, i + lowercase(query).len())
                    == lowercase(query))),
    decreases index.len(),
{
    if index.len() > 0 {
        let init = index.drop_last();
        law_search_finds_substrings(init, query);
        let rest = matching_positions(init, query);
        let r = matching_positions(index, query);
        let last = (index.len() - 1) as usize;
        assert(r == if title_matches(index.last().title, query) {
            rest.push(last)
        } else {
            rest
        });
        assert forall|i: int, j: int| 0 <= i < j < r.len() implies #[trigger] r[i] < #[trigger] r[j] by {
            if j >= rest.len() {
                assert(rest[i] < init.len());
            } else {
                assert(rest[i] < rest[j]);
            }
        }
        assert forall|i: int| 0 <= i < r.len() implies #[trigger] r[i] < index.len() by {
            if i < rest.len() {
                assert(rest[i] < init.len());
            }
        }
        assert forall|p: int| 0 <= p < index.len() implies (#[trigger] r.contains(p as usize) <==> (
        query.len() == 0 || exists|i: int|
            0 <= i && i + lowercase(query).len() <= lowercase(index[p].title).len()
                && #[trigger] lowercase(index[p].title).subrange(i, i + lowercase(query).len())
                == lowercase(query))) by {
            let lt = lowercase(index[p].title);
            let lq = lowercase(query);
            if p < index.len() - 1 {
                assert(init[p] == index[p]);
                if r.contains(p as usize) {
                    let k = choose|k: int| 0 <= k < r.len() && r[k] == p as usize;
                    if k < rest.len() {
                        assert(rest[k] == p as usize);
                        assert(rest.contains(p as usize));
                    }
                }
                if rest.contains(p as usize) {
                    let k = choose|k: int| 0 <= k < rest.len() && rest[k] == p as usize;
                    assert(r[k] == p as usize);
                }
            } else {
                if r.contains(p as usize) {
                    let k = choose|k: int| 0 <= k < r.len() && r[k] == p as usize;
                    if k < rest.len() {
                        assert(rest[k] < init.len());
                    }
                }
                if title_matches(index.last().title, query) {
                    assert(r[rest.len() as int] == last);
                }
                if query.len() > 0 && title_matches(index.last().title, query) {
                    let i = choose|i: int| crate::text::occurs_at(lt, lq, i);
                    assert(lt.subrange(i, i + lq.len()) == lq);
                }
                if query.len() > 0 && (exists|i: int|
                    0 <= i && i + lq.len() <= lt.len() && #[trigger] lt.subrange(i, i + lq.len()) == lq) {
                    let i = choose|i: int|
                        0 <= i && i + lq.len() <= lt.len() && #[trigger] lt.subrange(i, i + lq.len()) == lq;
                    assert(crate::text::occurs_at(lt, lq, i));
                }
            }
        }
    }
}

pub open spec fn welcome_content() -> Seq<char> {
    "# Welcome to Markdown Notes\n\nThis is a simple note-taking tool.\n\n- Create new notes\n- Edit with syntax highlighting\n- Preview in real-time"@
}

// ---------------------------------------------------------------------------
// Helpers
// ---------------------------------------------------------------------------

fn find_note(notes: &Vec<Note>, id: u128) -> (r: Option<usize>)
    ensures
        match r {
            Some(i) => i < notes.len() && first_note(notes@.map_values(|n: Note| n@), id) == Some(i as int),
            None => first_note(notes@.map_values(|n: Note| n@), id) is None,
        },
{
    let ghost all = notes@.map_values(|n: Note| n@);
    assert(all.skip(0) =~= all);
    let mut i: usize = 0;
    while i < notes.len()
        invariant
            i <= notes@.len() == all.len(),
            all == notes@.map_values(|n: Note| n@),
            first_note(all, id) == (match first_note(all.skip(i as int), id) {
                Some(k) => Some(k + i),
                None => None,
            }),
        decreases notes@.len() - i,
    {
        proof {
            assert(all.skip(i as int)[0] == all[i as int]);
            assert(all.skip(i as int).drop_first() =~= all.skip(i + 1));
        }
        if notes[i].id == id {
            return Some(i);
        }
        i += 1;
    }
    assert(all.skip(i as int) =~= Seq::<NoteModel>::empty());
    None
}

fn find_entry(index: &Vec<NoteIndex>, id: u128) -> (r: Option<usize>)
    ensures
        match r {
            Some(i) => i < index.len() && first_entry(index@.map_values(|n: NoteIndex| n@), id) == Some(i as int),
            None => first_entry(index@.map_values(|n: NoteIndex| n@), id) is None,
        },
{
    let ghost all = index@.map_values(|n: NoteIndex| n@);
    assert(all.skip(0) =~= all);
    let mut i: usize = 0;
    while i < index.len()
        invariant
            i <= index@.len() == all.len(),
            all == index@.map_values(|n: NoteIndex| n@),
            first_entry(all, id) == (match first_entry(all.skip(i as int), id) {
                Some(k) => Some(k + i),
                None => None,
            }),
        decreases index@.len() - i,
    {
        proof {
            assert(all.skip(i as int)[0] == all[i as int]);
            assert(all.skip(i as int).drop_first() =~= all.skip(i + 1));
        }
        if index[i].id == id {
            return Some(i);
        }
        i += 1;
    }
    assert(all.skip(i as int) =~= Seq::<NoteIndexModel>::empty());
    None
}

proof fn lemma_first_note_found(notes: Seq<NoteModel>, id: u128)
    ensures
        first_note(notes, id) matches Some(i) ==> 0 <= i < notes.len() && notes[i].id == id,
    decreases notes.len(),
{
    if notes.len() > 0 && notes[0].id != id {
        lemma_first_note_found(notes.drop_first(), id);
    }
}

proof fn lemma_first_entry_found(index: Seq<NoteIndexModel>, id: u128)
    ensures
        first_entry(index, id) matches Some(i) ==> 0 <= i < index.len() && index[i].id == id,
    decreases index.len(),
{
    if index.len() > 0 && index[0].id != id {
        lemma_first_entry_found(index.drop_first(), id);
    }
}

/// In mirrored lists the first note and the first entry with an id sit at
/// the same position.
proof fn lemma_first_same(notes: Seq<NoteModel>, index: Seq<NoteIndexModel>, id: u128)
    requires
        index_mirrors(notes, index),
    ensures
        first_note(notes, id) == first_entry(index, id),
    decreases notes.len(),
{
    if notes.len() > 0 {
        assert(index[0].id == notes[0].id);
        let n2 = notes.drop_first();
        let i2 = index.drop_first();
        assert forall|i: int| 0 <= i < n2.len() implies (#[trigger] i2[i]).id == n2[i].id && i2[i].title
            == n2[i].title && i2[i].created_at == n2[i].created_at by {
            assert(i2[i] == index[i + 1]);
        }
        lemma_first_same(n2, i2, id);
    }
}

/// Removing the same id from mirrored lists keeps them mirrored.
proof fn lemma_mirror_filter(notes: Seq<NoteModel>, index: Seq<NoteIndexModel>, id: u128)
    requires
        index_mirrors(notes, index),
    ensures
        index_mirrors(
            notes.filter(|n: NoteModel| n.id != id),
            index.filter(|e: NoteIndexModel| e.id != id),
        ),
    decreases notes.len(),
{
    reveal(Seq::filter);
    if notes.len() > 0 {
        let n2 = notes.drop_last();
        let i2 = index.drop_last();
        assert forall|i: int| 0 <= i < n2.len() implies (#[trigger] i2[i]).id == n2[i].id && i2[i].title
            == n2[i].title && i2[i].created_at == n2[i].created_at by {
            assert(i2[i] == index[i]);
        }
        lemma_mirror_filter(n2, i2, id);
        assert(index.last() == index[index.len() - 1]);
    }
}

/// Starting a note with `id` at `now` puts it, titled "New Note" and empty,
/// at the top of the notes, and its entry at the top of the index.
pub open spec fn note_started(
    notes: Seq<NoteModel>,
    index: Seq<NoteIndexModel>,
    notes2: Seq<NoteModel>,
    index2: Seq<NoteIndexModel>,
    id: u128,
    now: UtcTime,
) -> bool {
    &&& index2 == index.insert(0, NoteIndexModel { id, title: "New Note"@, created_at: now, modified_at: now })
    &&& notes2 == notes.insert(
        0,
        NoteModel { id, title: "New Note"@, content: Seq::empty(), created_at: now, modified_at: now },
    )
}

/// Editing the active note's content: while a note is active with its
/// content loaded, the note with its id (if any) takes the content and the
/// time `note_now`, its index entry (if any) takes the time `index_now`, and
/// every other note and entry stays; otherwise nothing changes.
pub open spec fn recontented(
    notes: Seq<NoteModel>,
    index: Seq<NoteIndexModel>,
    active: Option<u128>,
    buffer: Option<Seq<char>>,
    notes2: Seq<NoteModel>,
    index2: Seq<NoteIndexModel>,
    buffer2: Option<Seq<char>>,
    content: Seq<char>,
    note_now: UtcTime,
    index_now: UtcTime,
) -> bool {
    let editing = active is Some && buffer is Some;
    let id = active->0;
    if editing {
        &&& buffer2 == Some(content)
        &&& notes2 == (match first_note(notes, id) {
            Some(k) => notes.update(k, NoteModel { content: content, modified_at: note_now, ..notes[k] }),
            None => notes,
        })
        &&& index2 == (match first_entry(index, id) {
            Some(e) => index.update(e, NoteIndexModel { modified_at: index_now, ..index[e] }),
            None => index,
        })
    } else {
        &&& buffer2 == buffer
        &&& notes2 == notes
        &&& index2 == index
    }
}

/// Renaming the active note at `now` takes the notes and the index from
/// `notes`, `index` to `notes2`, `index2`: while a note is active with its
/// content loaded and its index entry found, that entry gets the title and
/// the time, and so does the note with the same id (if any); otherwise
/// nothing changes.
pub open spec fn retitled(
    notes: Seq<NoteModel>,
    index: Seq<NoteIndexModel>,
    active: Option<u128>,
    content: Option<Seq<char>>,
    notes2: Seq<NoteModel>,
    index2: Seq<NoteIndexModel>,
    title: Seq<char>,
    now: UtcTime,
) -> bool {
    let editing = active is Some && content is Some;
    let id = active->0;
    if editing && first_entry(index, id) is Some {
        let e = first_entry(index, id)->0;
        &&& index2 == index.update(e, NoteIndexModel { title: title, modified_at: now, ..index[e] })
        &&& notes2 == (match first_note(notes, id) {
            Some(k) => notes.update(k, NoteModel { title: title, modified_at: now, ..notes[k] }),
            None => notes,
        })
    } else {
        &&& index2 == index
        &&& notes2 == notes
    }
}

// ---------------------------------------------------------------------------
// The notes tool
// ---------------------------------------------------------------------------

impl MarkdownNotes {
    pub closed spec fn notes_view(&self) -> Seq<NoteModel> {
        self.notes@.map_values(|n: Note| n@)
    }

    pub closed spec fn index_view(&self) -> Seq<NoteIndexModel> {
        self.note_index@.map_values(|n: NoteIndex| n@)
    }

    pub closed spec fn active_id_spec(&self) -> Option<u128> {
        self.active_note_id
    }

    pub closed spec fn active_content_spec(&self) -> Option<Seq<char>> {
        match self.active_content {
            Some(c) => Some(c@),
            None => None,
        }
    }

    pub closed spec fn synced_spec(&self) -> bool {
        self.native_index_synced
    }

    pub closed spec fn search_query_spec(&self) -> Seq<char> {
        self.search_query@
    }

    pub closed spec fn narrow_tab_spec(&self) -> NarrowTab {
        self.narrow_tab
    }

    /// Notes restored from storage: the index is built on first use.
    pub fn from_notes(notes: Vec<Note>, active_note_id: Option<u128>, narrow_tab: NarrowTab) -> (r: Self)
        ensures
            r.notes_view() == notes@.map_values(|n: Note| n@),
            r.active_id_spec() == active_note_id,
            r.index_view().len() == 0,
            r.active_content_spec() is None,
            !r.synced_spec(),
            r.search_query_spec() == Seq::<char>::empty(),
            r.narrow_tab_spec() == narrow_tab,
    {
        let r = MarkdownNotes {
            notes,
            active_note_id,
            note_index: Vec::new(),
            active_content: None,
            native_index_synced: false,
            search_query: String::new(),
            narrow_tab,
        };
        assert(r.index_view() =~= Seq::<NoteIndexModel>::empty());
        r
    }

    /// A first-run notes tool: one welcome note, active, with the given id
    /// and creation and modification times.
    pub fn with_welcome(id: u128, created: UtcTime, modified: UtcTime) -> (r: Self)
        ensures
            r.notes_view() == seq![NoteModel { id, title: "Welcome Source Note"@, content: welcome_content(), created_at: created, modified_at: modified }],
            r.active_id_spec() == Some(id),
            r.index_view().len() == 0,
            r.active_content_spec() is None,
            !r.synced_spec(),
            r.search_query_spec() == Seq::<char>::empty(),
            r.narrow_tab_spec() == NarrowTab::Edit,
    {
        let mut notes: Vec<Note> = Vec::new();
        notes.push(
            Note {
                id,
                title: String::from_str("Welcome Source Note"),
                content: String::from_str(
                    "# Welcome to Markdown Notes\n\nThis is a simple note-taking tool.\n\n- Create new notes\n- Edit with syntax highlighting\n- Preview in real-time",
                ),
                created_at: created,
                modified_at: modified,
            },
        );
        let r = MarkdownNotes::from_notes(notes, Some(id), NarrowTab::Edit);
        assert(r.notes_view() =~= seq![NoteModel { id, title: "Welcome Source Note"@, content: welcome_content(), created_at: created, modified_at: modified }]);
        r
    }

    /// A first-run notes tool with a new random id and the current time.
    pub fn new() -> (r: Self)
        ensures
            r.notes_view().len() == 1,
            r.notes_view()[0].title == "Welcome Source Note"@,
            r.notes_view()[0].content == welcome_content(),
            r.active_id_spec() == Some(r.notes_view()[0].id),
            r.index_view().len() == 0,
            r.active_content_spec() is None,
            !r.synced_spec(),
            r.search_query_spec() == Seq::<char>::empty(),
            r.narrow_tab_spec() == NarrowTab::Edit,
    {
        let id = new_v4_id();
        let created = utc_now();
        let modified = utc_now();
        MarkdownNotes::with_welcome(id, created, modified)
    }

    /// Build the index from the notes the first time (and load the active
    /// note's content); later calls change nothing.
    pub fn sync_native_index(&mut self)
        ensures
            !old(self).synced_spec() ==> final(self).index_view() == old(self).notes_view().map_values(
                |n: NoteModel| entry_of(n),
            ) && final(self).active_content_spec() == (match old(self).active_id_spec() {
                Some(id) => content_of(old(self).notes_view(), id),
                None => old(self).active_content_spec(),
            }),
            old(self).synced_spec() ==> final(self).index_view() == old(self).index_view()
                && final(self).active_content_spec() == old(self).active_content_spec(),
            final(self).synced_spec(),
            final(self).notes_view() == old(self).notes_view(),
            final(self).active_id_spec() == old(self).active_id_spec(),
            final(self).search_query_spec() == old(self).search_query_spec(),
            final(self).narrow_tab_spec() == old(self).narrow_tab_spec(),
            index_mirrors(final(self).notes_view(), final(self).index_view()) || old(self).synced_spec(),
    {
        if self.native_index_synced {
            return;
        }
        self.native_index_synced = true;
        let mut index: Vec<NoteIndex> = Vec::new();
        let mut i: usize = 0;
        while i < self.notes.len()
            invariant
                i <= self.notes@.len(),
                index@.map_values(|n: NoteIndex| n@) == self.notes@.map_values(|n: Note| n@).take(
                    i as int,
                ).map_values(|n: NoteModel| entry_of(n)),
            decreases self.notes@.len() - i,
        {
            let n = &self.notes[i];
            let ghost before = index@;
            index.push(
                NoteIndex {
                    id: n.id,
                    title: n.title.clone(),
                    created_at: n.created_at,
                    modified_at: n.modified_at,
                },
            );
            proof {
                let all = self.notes@.map_values(|n: Note| n@);
                assert(all.take(i + 1) =~= all.take(i as int).push(all[i as int]));
                assert(index@.map_values(|n: NoteIndex| n@) =~= before.map_values(|n: NoteIndex| n@).push(
                    entry_of(all[i as int]),
                ));
                assert(all.take(i + 1).map_values(|n: NoteModel| entry_of(n)) =~= all.take(
                    i as int,
                ).map_values(|n: NoteModel| entry_of(n)).push(entry_of(all[i as int])));
            }
            i += 1;
        }
        proof {
            let all = self.notes@.map_values(|n: Note| n@);
            assert(all.take(all.len() as int) =~= all);
        }
        self.note_index = index;
        if let Some(id) = self.active_note_id {
            self.active_content = match find_note(&self.notes, id) {
                Some(k) => Some(self.notes[k].content.clone()),
                None => None,
            };
        }
    }

    /// Make a note active and load its content; selecting the active note
    /// again changes nothing.
    pub fn select_note(&mut self, id: u128)
        ensures
            old(self).active_id_spec() == Some(id) ==> final(self).active_content_spec() == old(
                self,
            ).active_content_spec(),
            old(self).active_id_spec() != Some(id) ==> final(self).active_content_spec()
                == content_of(old(self).notes_view(), id),
            final(self).active_id_spec() == Some(id),
            final(self).notes_view() == old(self).notes_view(),
            final(self).index_view() == old(self).index_view(),
            final(self).synced_spec() == old(self).synced_spec(),
    {
        if self.active_note_id == Some(id) {
            return;
        }
        self.active_note_id = Some(id);
        self.active_content = match find_note(&self.notes, id) {
            Some(k) => Some(self.notes[k].content.clone()),
            None => None,
        };
    }

    /// Start a new empty note titled "New Note" with the given id and time,
    /// at the top of the list, and make it active.
    pub fn create_new_note_with(&mut self, id: u128, now: UtcTime)
        ensures
            note_started(
                old(self).notes_view(),
                old(self).index_view(),
                final(self).notes_view(),
                final(self).index_view(),
                id,
                now,
            ),
            final(self).active_id_spec() == Some(id),
            final(self).active_content_spec() == Some(Seq::<char>::empty()),
            final(self).synced_spec() == old(self).synced_spec(),
            index_mirrors(old(self).notes_view(), old(self).index_view()) ==> index_mirrors(
                final(self).notes_view(),
                final(self).index_view(),
            ),
    {
        let ghost old_index = self.note_index@;
        let ghost old_notes = self.notes@;
        self.note_index.insert(
            0,
            NoteIndex { id, title: String::from_str("New Note"), created_at: now, modified_at: now },
        );
        self.active_note_id = Some(id);
        self.active_content = Some(String::new());
        self.notes.insert(
            0,
            Note {
                id,
                title: String::from_str("New Note"),
                content: String::new(),
                created_at: now,
                modified_at: now,
            },
        );
        proof {
            assert(self.index_view() =~= old_index.map_values(|n: NoteIndex| n@).insert(
                0,
                self.note_index@[0]@,
            ));
            assert(self.notes_view() =~= old_notes.map_values(|n: Note| n@).insert(0, self.notes@[0]@));
            if index_mirrors(old_notes.map_values(|n: Note| n@), old_index.map_values(|n: NoteIndex| n@)) {
                assert forall|i: int| 0 <= i < self.notes_view().len() implies (#[trigger] self.index_view()[i]).id
                    == self.notes_view()[i].id && self.index_view()[i].title == self.notes_view()[i].title
                    && self.index_view()[i].created_at == self.notes_view()[i].created_at by {
                    if i > 0 {
                        assert(self.index_view()[i] == old_index.map_values(|n: NoteIndex| n@)[i - 1]);
                        assert(self.notes_view()[i] == old_notes.map_values(|n: Note| n@)[i - 1]);
                    }
                }
            }
        }
    }

    /// Start a new note ("➕") with a new random id and the current time; see
    /// [`Self::create_new_note_with`].
    pub fn create_new_note(&mut self)
        ensures
            exists|id: u128, now: UtcTime|
                #[trigger] note_started(
                    old(self).notes_view(),
                    old(self).index_view(),
                    final(self).notes_view(),
                    final(self).index_view(),
                    id,
                    now,
                ) && final(self).active_id_spec() == Some(id) && now.nanos < 1_000_000_000,
            final(self).synced_spec() == old(self).synced_spec(),
            final(self).notes_view().len() == old(self).notes_view().len() + 1,
            final(self).notes_view().drop_first() == old(self).notes_view(),
            final(self).notes_view()[0].title == "New Note"@,
            final(self).notes_view()[0].content == Seq::<char>::empty(),
            final(self).active_id_spec() == Some(final(self).notes_view()[0].id),
            final(self).active_content_spec() == Some(Seq::<char>::empty()),
            index_mirrors(old(self).notes_view(), old(self).index_view()) ==> index_mirrors(
                final(self).notes_view(),
                final(self).index_view(),
            ),
    {
        let id = new_v4_id();
        let now = utc_now();
        self.create_new_note_with(id, now);
        assert(self.notes_view().drop_first() =~= old(self).notes_view());
    }

    /// Delete every note (and index entry) with the id; when it was the
    /// active note, nothing is active any more.
    pub fn delete_note(&mut self, id: u128)
        ensures
            final(self).index_view() == old(self).index_view().filter(|e: NoteIndexModel| e.id != id),
            final(self).notes_view() == old(self).notes_view().filter(|n: NoteModel| n.id != id),
            old(self).active_id_spec() == Some(id) ==> final(self).active_id_spec() is None
                && final(self).active_content_spec() is None,
            old(self).active_id_spec() != Some(id) ==> final(self).active_id_spec() == old(
                self,
            ).active_id_spec() && final(self).active_content_spec() == old(self).active_content_spec(),
            final(self).synced_spec() == old(self).synced_spec(),
            index_mirrors(old(self).notes_view(), old(self).index_view()) ==> index_mirrors(
                final(self).notes_view(),
                final(self).index_view(),
            ),
    {
        proof {
            if index_mirrors(self.notes_view(), self.index_view()) {
                lemma_mirror_filter(self.notes_view(), self.index_view(), id);
            }
        }
        self.retain_index_not(id);
        self.retain_notes_not(id);
        if self.active_note_id == Some(id) {
            self.active_note_id = None;
            self.active_content = None;
        }
    }

    fn retain_index_not(&mut self, id: u128)
        ensures
            final(self).index_view() == old(self).index_view().filter(|e: NoteIndexModel| e.id != id),
            final(self).notes@ == old(self).notes@,
            final(self).active_note_id == old(self).active_note_id,
            final(self).active_content == old(self).active_content,
            final(self).native_index_synced == old(self).native_index_synced,
    {
        let mut rest: Vec<NoteIndex> = Vec::new();
        std::mem::swap(&mut rest, &mut self.note_index);
        let n = rest.len();
        let ghost all = rest@;
        let ghost all_view = all.map_values(|e: NoteIndex| e@);
        let mut kept: Vec<NoteIndex> = Vec::new();
        let mut i: usize = 0;
        while i < n
            invariant
                i <= n == all.len(),
                rest@ == all.subrange(i as int, n as int),
                all_view == all.map_values(|e: NoteIndex| e@),
                kept@.map_values(|e: NoteIndex| e@) == all_view.take(i as int).filter(
                    |e: NoteIndexModel| e.id != id,
                ),
            decreases n - i,
        {
            let e = rest.remove(0);
            proof {
                let m = all_view.take(i + 1);
                assert(m.drop_last() =~= all_view.take(i as int));
                assert(m.last() == e@);
                reveal(Seq::filter);
            }
            if e.id != id {
                let ghost k = kept@;
                kept.push(e);
                assert(kept@.map_values(|x: NoteIndex| x@) =~= k.map_values(|x: NoteIndex| x@).push(e@));
            }
            i += 1;
            assert(rest@ =~= all.subrange(i as int, n as int));
        }
        assert(all_view.take(n as int) =~= all_view);
        self.note_index = kept;
    }

    fn retain_notes_not(&mut self, id: u128)
        ensures
            final(self).notes_view() == old(self).notes_view().filter(|x: NoteModel| x.id != id),
            final(self).note_index@ == old(self).note_index@,
            final(self).active_note_id == old(self).active_note_id,
            final(self).active_content == old(self).active_content,
            final(self).native_index_synced == old(self).native_index_synced,
    {
        let mut rest: Vec<Note> = Vec::new();
        std::mem::swap(&mut rest, &mut self.notes);
        let n = rest.len();
        let ghost all = rest@;
        let ghost all_view = all.map_values(|e: Note| e@);
        let mut kept: Vec<Note> = Vec::new();
        let mut i: usize = 0;
        while i < n
            invariant
                i <= n == all.len(),
                rest@ == all.subrange(i as int, n as int),
                all_view == all.map_values(|e: Note| e@),
                kept@.map_values(|e: Note| e@) == all_view.take(i as int).filter(
                    |x: NoteModel| x.id != id,
                ),
            decreases n - i,
        {
            let e = rest.remove(0);
            proof {
                let m = all_view.take(i + 1);
                assert(m.drop_last() =~= all_view.take(i as int));
                assert(m.last() == e@);
                reveal(Seq::filter);
            }
            if e.id != id {
                let ghost k = kept@;
                kept.push(e);
                assert(kept@.map_values(|x: Note| x@) =~= k.map_values(|x: Note| x@).push(e@));
            }
            i += 1;
            assert(rest@ =~= all.subrange(i as int, n as int));
        }
        assert(all_view.take(n as int) =~= all_view);
        self.notes = kept;
    }

    /// Rename the active note (its title field) at the given time: its index
    /// entry gets the title and the time, and the note takes both over. Only
    /// while a note is active with its content loaded.
    pub fn set_title_at(&mut self, title: &str, now: UtcTime)
        ensures
            retitled(
                old(self).notes_view(),
                old(self).index_view(),
                old(self).active_id_spec(),
                old(self).active_content_spec(),
                final(self).notes_view(),
                final(self).index_view(),
                title@,
                now,
            ),
            final(self).active_id_spec() == old(self).active_id_spec(),
            final(self).active_content_spec() == old(self).active_content_spec(),
            final(self).synced_spec() == old(self).synced_spec(),
            index_mirrors(old(self).notes_view(), old(self).index_view()) ==> index_mirrors(
                final(self).notes_view(),
                final(self).index_view(),
            ),
    {
        let id = match self.active_note_id {
            Some(id) => id,
            None => return,
        };
        if self.active_content.is_none() {
            return;
        }
        let e = match find_entry(&self.note_index, id) {
            Some(e) => e,
            None => return,
        };
        let ghost old_index = self.note_index@;
        let ghost old_notes = self.notes@;
        proof {
            lemma_first_entry_found(old_index.map_values(|n: NoteIndex| n@), id);
            lemma_first_note_found(old_notes.map_values(|n: Note| n@), id);
            if index_mirrors(old_notes.map_values(|n: Note| n@), old_index.map_values(|n: NoteIndex| n@)) {
                lemma_first_same(old_notes.map_values(|n: Note| n@), old_index.map_values(|n: NoteIndex| n@), id);
            }
        }
        self.note_index[e].title = String::from_str(title);
        self.note_index[e].modified_at = now;
        assert(self.index_view() =~= old_index.map_values(|n: NoteIndex| n@).update(
            e as int,
            NoteIndexModel { title: title@, modified_at: now, ..old_index[e as int]@ },
        ));
        match find_note(&self.notes, id) {
            Some(k) => {
                let t = self.note_index[e].title.clone();
                self.notes[k].title = t;
                self.notes[k].modified_at = now;
                assert(self.notes_view() =~= old_notes.map_values(|n: Note| n@).update(
                    k as int,
                    NoteModel { title: title@, modified_at: now, ..old_notes[k as int]@ },
                ));
            },
            None => {},
        }
    }

    /// Rename the active note now; see [`Self::set_title_at`].
    pub fn set_title(&mut self, title: &str)
        ensures
            exists|now: UtcTime|
                #[trigger] retitled(
                    old(self).notes_view(),
                    old(self).index_view(),
                    old(self).active_id_spec(),
                    old(self).active_content_spec(),
                    final(self).notes_view(),
                    final(self).index_view(),
                    title@,
                    now,
                ) && now.nanos < 1_000_000_000,
            final(self).active_id_spec() == old(self).active_id_spec(),
            final(self).active_content_spec() == old(self).active_content_spec(),
            final(self).synced_spec() == old(self).synced_spec(),
            index_mirrors(old(self).notes_view(), old(self).index_view()) ==> index_mirrors(
                final(self).notes_view(),
                final(self).index_view(),
            ),
    {
        let now = utc_now();
        self.set_title_at(title, now);
    }

    /// Edit the active note's content: the content and the note's
    /// modification time (`note_now`) change, and its index entry's
    /// modification time becomes `index_now`. Only while a note is active with
    /// its content loaded.
    pub fn set_content_at(&mut self, content: &str, note_now: UtcTime, index_now: UtcTime)
        ensures
            recontented(
                old(self).notes_view(),
                old(self).index_view(),
                old(self).active_id_spec(),
                old(self).active_content_spec(),
                final(self).notes_view(),
                final(self).index_view(),
                final(self).active_content_spec(),
                content@,
                note_now,
                index_now,
            ),
            final(self).active_id_spec() == old(self).active_id_spec(),
            final(self).synced_spec() == old(self).synced_spec(),
            index_mirrors(old(self).notes_view(), old(self).index_view()) ==> index_mirrors(
                final(self).notes_view(),
                final(self).index_view(),
            ),
    {
        let id = match self.active_note_id {
            Some(id) => id,
            None => return,
        };
        if self.active_content.is_none() {
            return;
        }
        let ghost old_index = self.note_index@;
        let ghost old_notes = self.notes@;
        self.active_content = Some(String::from_str(content));
        match find_note(&self.notes, id) {
            Some(k) => {
                proof {
                    lemma_first_note_found(old_notes.map_values(|n: Note| n@), id);
                }
                self.notes[k].content = String::from_str(content);
                self.notes[k].modified_at = note_now;
                assert(self.notes_view() =~= old_notes.map_values(|n: Note| n@).update(
                    k as int,
                    NoteModel { content: content@, modified_at: note_now, ..old_notes[k as int]@ },
                ));
            },
            None => {},
        }
        match find_entry(&self.note_index, id) {
            Some(e) => {
                proof {
                    lemma_first_entry_found(old_index.map_values(|n: NoteIndex| n@), id);
                }
                self.note_index[e].modified_at = index_now;
                assert(self.index_view() =~= old_index.map_values(|n: NoteIndex| n@).update(
                    e as int,
                    NoteIndexModel { modified_at: index_now, ..old_index[e as int]@ },
                ));
            },
            None => {},
        }
    }

    /// Edit the active note's content now (the note and its index entry each
    /// read the clock); see [`Self::set_content_at`].
    pub fn set_content(&mut self, content: &str)
        ensures
            exists|note_now: UtcTime, index_now: UtcTime|
                #[trigger] recontented(
                    old(self).notes_view(),
                    old(self).index_view(),
                    old(self).active_id_spec(),
                    old(self).active_content_spec(),
                    final(self).notes_view(),
                    final(self).index_view(),
                    final(self).active_content_spec(),
                    content@,
                    note_now,
                    index_now,
                ) && note_now.nanos < 1_000_000_000 && index_now.nanos < 1_000_000_000,
            final(self).active_id_spec() == old(self).active_id_spec(),
            final(self).synced_spec() == old(self).synced_spec(),
            old(self).active_id_spec() is Some && old(self).active_content_spec() is Some
                ==> final(self).active_content_spec() == Some(content@),
            index_mirrors(old(self).notes_view(), old(self).index_view()) ==> index_mirrors(
                final(self).notes_view(),
                final(self).index_view(),
            ),
    {
        let note_now = utc_now();
        let index_now = utc_now();
        self.set_content_at(content, note_now, index_now);
    }

    /// Positions of the index entries the sidebar lists for the current
    /// search, in order.
    pub fn search_results(&self) -> (r: Vec<usize>)
        ensures
            r@ == matching_positions(self.index_view(), self.search_query_spec()),
    {
        let query_empty = self.search_query.as_str().is_empty();
        let query = to_lowercase(self.search_query.as_str());
        let query_chars = chars_of(query.as_str());
        let ghost all = self.index_view();
        let mut r: Vec<usize> = Vec::new();
        let mut i: usize = 0;
        while i < self.note_index.len()
            invariant
                i <= self.note_index@.len() == all.len(),
                all == self.index_view(),
                query_empty == (self.search_query@.len() == 0),
                query_chars@ == lowercase(self.search_query@),
                r@ == matching_positions(all.take(i as int), self.search_query@),
            decreases self.note_index@.len() - i,
        {
            let matches = if query_empty {
                true
            } else {
                let title = to_lowercase(self.note_index[i].title.as_str());
                let title_chars = chars_of(title.as_str());
                contains_chars(title_chars.as_slice(), query_chars.as_slice())
            };
            proof {
                let t = all.take(i + 1);
                assert(t.drop_last() =~= all.take(i as int));
                assert(t.last() == all[i as int]);
                assert(all[i as int] == self.note_index@[i as int]@);
            }
            if matches {
                r.push(i);
            }
            i += 1;
        }
        assert(all.take(all.len() as int) =~= all);
        r
    }

    pub fn set_search_query(&mut self, query: &str)
        ensures
            final(self).search_query_spec() == query@,
            final(self).notes_view() == old(self).notes_view(),
            final(self).index_view() == old(self).index_view(),
            final(self).active_id_spec() == old(self).active_id_spec(),
            final(self).active_content_spec() == old(self).active_content_spec(),
    {
        self.search_query = String::from_str(query);
    }

    pub fn set_narrow_tab(&mut self, tab: NarrowTab)
        ensures
            final(self).narrow_tab_spec() == tab,
            final(self).notes_view() == old(self).notes_view(),
            final(self).index_view() == old(self).index_view(),
            final(self).active_id_spec() == old(self).active_id_spec(),
            final(self).active_content_spec() == old(self).active_content_spec(),
    {
        self.narrow_tab = tab;
    }

    /// Take a note index loaded from browser storage: a non-empty index
    /// replaces the current one, an empty one is ignored. Returns the id of
    /// the note whose content is to be loaded next: the active note, when its
    /// content is not loaded yet.
    pub fn apply_loaded_index(&mut self, index: Vec<NoteIndex>) -> (load: Option<u128>)
        ensures
            index@.len() > 0 ==> final(self).index_view() == index@.map_values(|n: NoteIndex| n@),
            index@.len() == 0 ==> final(self).index_view() == old(self).index_view(),
            load == (if old(self).active_id_spec() is Some && old(self).active_content_spec() is None {
                old(self).active_id_spec()
            } else {
                None
            }),
            final(self).notes_view() == old(self).notes_view(),
            final(self).active_id_spec() == old(self).active_id_spec(),
            final(self).active_content_spec() == old(self).active_content_spec(),
            final(self).synced_spec() == old(self).synced_spec(),
            final(self).search_query_spec() == old(self).search_query_spec(),
            final(self).narrow_tab_spec() == old(self).narrow_tab_spec(),
    {
        if index.len() > 0 {
            self.note_index = index;
        }
        match self.active_note_id {
            Some(id) => {
                if self.active_content.is_none() {
                    Some(id)
                } else {
                    None
                }
            },
            None => None,
        }
    }

    /// Take a note's content loaded from browser storage: it becomes the
    /// edited content when that note is still the active one; otherwise it is
    /// dropped.
    pub fn apply_loaded_content(&mut self, id: u128, content: String)
        ensures
            old(self).active_id_spec() == Some(id) ==> final(self).active_content_spec() == Some(content@),
            old(self).active_id_spec() != Some(id) ==> final(self).active_content_spec() == old(
                self,
            ).active_content_spec(),
            final(self).notes_view() == old(self).notes_view(),
            final(self).index_view() == old(self).index_view(),
            final(self).active_id_spec() == old(self).active_id_spec(),
            final(self).synced_spec() == old(self).synced_spec(),
            final(self).search_query_spec() == old(self).search_query_spec(),
            final(self).narrow_tab_spec() == old(self).narrow_tab_spec(),
    {
        if self.active_note_id == Some(id) {
            self.active_content = Some(content);
        }
    }

    pub fn notes(&self) -> (r: &Vec<Note>)
        ensures
            r@.map_values(|n: Note| n@) == self.notes_view(),
    {
        &self.notes
    }

    pub fn note_index(&self) -> (r: &Vec<NoteIndex>)
        ensures
            r@.map_values(|n: NoteIndex| n@) == self.index_view(),
    {
        &self.note_index
    }

    pub fn active_note_id(&self) -> (r: Option<u128>)
        ensures
            r == self.active_id_spec(),
    {
        self.active_note_id
    }

    pub fn active_content(&self) -> (r: Option<&str>)
        ensures
            match r {
                Some(c) => self.active_content_spec() == Some(c@),
                None => self.active_content_spec() is None,
            },
    {
        match &self.active_content {
            Some(c) => Some(c.as_str()),
            None => None,
        }
    }

    pub fn search_query(&self) -> (r: &str)
        ensures
            r@ == self.search_query_spec(),
    {
        self.search_query.as_str()
    }

    pub fn narrow_tab(&self) -> (r: NarrowTab)
        ensures
            r == self.narrow_tab_spec(),
    {
        self.narrow_tab
    }
}

} // verus!
