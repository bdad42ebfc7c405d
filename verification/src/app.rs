//! The toolbox's top level: the tools in the panel with their open flags,
//! the mode on show (tools, notes or finance) and the about window.
use crate::tools::base64_converter::Base64Converter;
use crate::tools::diff_viewer::DiffViewer;
use crate::tools::epoch_converter::EpochConverter;
use crate::tools::finance_tracker::FinanceTracker;
use crate::tools::format_converter::FormatConverter;
use crate::tools::hash_generator::HashGenerator;
use crate::tools::jwt_debugger::JwtDebugger;
use crate::tools::markdown_notes::MarkdownNotes;
use crate::tools::password_generator::PasswordGenerator;
use crate::tools::qr_code_generator::QrCodeGenerator;
use crate::tools::regex_tester::RegexTester;
use crate::tools::todo_list::TodoList;
use crate::tools::uuid_generator::UuidGenerator;
use crate::tools::{tool_name_spec, ToolKind};
use vstd::prelude::*;

verus! {

/// A tool in the panel and whether its window is open.
pub struct ToolState {
    pub tool: ToolKind,
    pub open: bool,
}

/// What the central area shows.
#[derive(PartialEq, Eq, Clone, Copy, Debug, Structural)]
pub enum AppMode {
    Tools,
    NoteDown,
    Finance,
}

/// The tools' titles in the panel's order.
pub open spec fn panel_names() -> Seq<Seq<char>> {
    seq![
        "Format Converter"@,
        "Epoch Converter"@,
        "Base64 Converter"@,
        "JWT Debugger"@,
        "UUID Generator"@,
        "Hash Generator"@,
        "Password Generator"@,
        "Regex Tester"@,
        "QR Code Generator"@,
        "Diff Viewer"@,
        "Todo List"@,
    ]
}

/// The open flags of a fresh panel: the format converter open, the rest
/// closed.
pub open spec fn initial_flags() -> Seq<bool> {
    seq![true, false, false, false, false, false, false, false, false, false, false]
}

/// A tool in the state its constructor gives.
pub open spec fn fresh_tool(t: ToolKind) -> bool {
    match t {
        ToolKind::FormatConverter(c) => c.is_fresh(),
        ToolKind::EpochConverter(c) => c.is_fresh(),
        ToolKind::Base64Converter(c) => c.is_fresh(),
        ToolKind::JwtDebugger(c) => c.is_fresh(),
        ToolKind::UuidGenerator(c) => c.is_fresh(),
        ToolKind::HashGenerator(c) => c.is_fresh(),
        ToolKind::PasswordGenerator(c) => c.is_fresh(),
        ToolKind::RegexTester(c) => c.is_fresh(),
        ToolKind::QrCodeGenerator(c) => c.is_fresh(),
        ToolKind::DiffViewer(c) => c.is_fresh(),
        ToolKind::TodoList(c) => c.is_fresh(),
    }
}

pub open spec fn flags_of(tools: Seq<ToolState>) -> Seq<bool> {
    tools.map_values(|t: ToolState| t.open)
}

pub open spec fn names_of(tools: Seq<ToolState>) -> Seq<Seq<char>> {
    tools.map_values(|t: ToolState| tool_name_spec(t.tool))
}

/// The position of the first open tool.
pub open spec fn first_open(flags: Seq<bool>) -> Option<int>
    decreases flags.len(),
{
    if flags.len() == 0 {
        None
    } else if flags[0] {
        Some(0)
    } else {
        match first_open(flags.drop_first()) {
            Some(i) => Some(i + 1),
            None => None,
        }
    }
}

pub open spec fn all_closed(flags: Seq<bool>) -> bool {
    forall|i: int| 0 <= i < flags.len() ==> !(#[trigger] flags[i])
}

proof fn lemma_first_open_none(flags: Seq<bool>)
    ensures
        first_open(flags) is None <==> all_closed(flags),
    decreases flags.len(),
{
    if flags.len() > 0 {
        lemma_first_open_none(flags.drop_first());
        if all_closed(flags) {
            assert forall|i: int| 0 <= i < flags.drop_first().len() implies !(
            #[trigger] flags.drop_first()[i]) by {
                assert(flags.drop_first()[i] == flags[i + 1]);
            }
        }
        if first_open(flags) is None {
            assert forall|i: int| 0 <= i < flags.len() implies !(#[trigger] flags[i]) by {
                if i > 0 {
                    assert(flags.drop_first()[i - 1] == flags[i]);
                }
            }
        }
    }
}

/// The toolbox: the tools, the notes, the finance tracker, the mode and the
/// about window's flag.
pub struct PersonarsApp {
    tools: Vec<ToolState>,
    markdown_notes: MarkdownNotes,
    finance_tracker: FinanceTracker,
    mode: AppMode,
    show_about: bool,
    sidebar_open: bool,
}

/// Set one tool's open flag.
fn set_open(tools: &mut Vec<ToolState>, i: usize, open: bool)
    requires
        i < old(tools)@.len(),
    ensures
        final(tools)@.len() == old(tools)@.len(),
        flags_of(final(tools)@) == flags_of(old(tools)@).update(i as int, open),
        names_of(final(tools)@) == names_of(old(tools)@),
        final(tools)@[i as int].tool == old(tools)@[i as int].tool,
        forall|j: int| 0 <= j < old(tools)@.len() && j != i ==> final(tools)@[j] == old(tools)@[j],
{
    let ghost before = tools@;
    let mut t = tools.remove(i);
    t.open = open;
    tools.insert(i, t);
    proof {
        assert(flags_of(tools@) =~= flags_of(before).update(i as int, open));
        assert(names_of(tools@) =~= names_of(before));
    }
}

impl PersonarsApp {
    pub closed spec fn tools_view(&self) -> Seq<ToolState> {
        self.tools@
    }

    pub closed spec fn mode_spec(&self) -> AppMode {
        self.mode
    }

    pub closed spec fn about_spec(&self) -> bool {
        self.show_about
    }

    pub closed spec fn sidebar_spec(&self) -> bool {
        self.sidebar_open
    }

    /// The panel's tools, each fresh, the format converter open.
    pub fn create_tools() -> (r: Vec<ToolState>)
        ensures
            names_of(r@) == panel_names(),
            flags_of(r@) == initial_flags(),
            forall|i: int| 0 <= i < r@.len() ==> fresh_tool(#[trigger] r@[i].tool),
    {
        let mut v: Vec<ToolState> = Vec::new();
        v.push(ToolState { tool: ToolKind::FormatConverter(FormatConverter::new()), open: true });
        v.push(ToolState { tool: ToolKind::EpochConverter(EpochConverter::new()), open: false });
        v.push(ToolState { tool: ToolKind::Base64Converter(Base64Converter::new()), open: false });
        v.push(ToolState { tool: ToolKind::JwtDebugger(JwtDebugger::new()), open: false });
        v.push(ToolState { tool: ToolKind::UuidGenerator(UuidGenerator::new()), open: false });
        v.push(ToolState { tool: ToolKind::HashGenerator(HashGenerator::new()), open: false });
        v.push(
            ToolState { tool: ToolKind::PasswordGenerator(PasswordGenerator::new()), open: false },
        );
        v.push(ToolState { tool: ToolKind::RegexTester(RegexTester::new()), open: false });
        v.push(ToolState { tool: ToolKind::QrCodeGenerator(QrCodeGenerator::new()), open: false });
        v.push(ToolState { tool: ToolKind::DiffViewer(DiffViewer::new()), open: false });
        v.push(ToolState { tool: ToolKind::TodoList(TodoList::new()), open: false });
        proof {
            assert(names_of(v@) =~= panel_names());
            assert(flags_of(v@) =~= initial_flags());
        }
        v
    }

    /// A fresh toolbox: the panel's tools, new notes, a new finance tracker,
    /// the tools mode, no about window.
    pub fn new() -> (r: Self)
        ensures
            names_of(r.tools_view()) == panel_names(),
            flags_of(r.tools_view()) == initial_flags(),
            forall|i: int| 0 <= i < r.tools_view().len() ==> fresh_tool(#[trigger] r.tools_view()[i].tool),
            r.mode_spec() == AppMode::Tools,
            !r.about_spec(),
            !r.sidebar_spec(),
    {
        PersonarsApp {
            tools: Self::create_tools(),
            markdown_notes: MarkdownNotes::new(),
            finance_tracker: FinanceTracker::new(),
            mode: AppMode::Tools,
            show_about: false,
            sidebar_open: false,
        }
    }

    /// A toolbox restored from saved parts; the about window and the sidebar
    /// start closed.
    pub fn restore(
        tools: Vec<ToolState>,
        markdown_notes: MarkdownNotes,
        finance_tracker: FinanceTracker,
        mode: AppMode,
    ) -> (r: Self)
        ensures
            r.tools_view() == tools@,
            r.mode_spec() == mode,
            !r.about_spec(),
            !r.sidebar_spec(),
    {
        PersonarsApp { tools, markdown_notes, finance_tracker, mode, show_about: false, sidebar_open: false }
    }

    /// Flip a tool's open flag (its panel button); an index past the panel
    /// changes nothing.
    pub fn toggle_tool(&mut self, i: usize)
        ensures
            names_of(final(self).tools_view()) == names_of(old(self).tools_view()),
            i < old(self).tools_view().len() ==> flags_of(final(self).tools_view()) == flags_of(
                old(self).tools_view(),
            ).update(i as int, !old(self).tools_view()[i as int].open),
            i >= old(self).tools_view().len() ==> final(self).tools_view() == old(self).tools_view(),
            final(self).mode_spec() == old(self).mode_spec(),
    {
        if i < self.tools.len() {
            let open = self.tools[i].open;
            set_open(&mut self.tools, i, !open);
        }
    }

    /// Open a tool (its dashboard tile); an index past the panel changes
    /// nothing.
    pub fn open_tool(&mut self, i: usize)
        ensures
            names_of(final(self).tools_view()) == names_of(old(self).tools_view()),
            i < old(self).tools_view().len() ==> flags_of(final(self).tools_view()) == flags_of(
                old(self).tools_view(),
            ).update(i as int, true),
            i >= old(self).tools_view().len() ==> final(self).tools_view() == old(self).tools_view(),
            final(self).mode_spec() == old(self).mode_spec(),
    {
        if i < self.tools.len() {
            set_open(&mut self.tools, i, true);
        }
    }

    /// Close a tool (its window's close button, or "← Back"); an index past
    /// the panel changes nothing.
    pub fn close_tool(&mut self, i: usize)
        ensures
            names_of(final(self).tools_view()) == names_of(old(self).tools_view()),
            i < old(self).tools_view().len() ==> flags_of(final(self).tools_view()) == flags_of(
                old(self).tools_view(),
            ).update(i as int, false),
            i >= old(self).tools_view().len() ==> final(self).tools_view() == old(self).tools_view(),
            final(self).mode_spec() == old(self).mode_spec(),
    {
        if i < self.tools.len() {
            set_open(&mut self.tools, i, false);
        }
    }

    /// Close every tool ("Close All"); afterwards no tool is open and the
    /// dashboard shows.
    pub fn close_all(&mut self)
        ensures
            names_of(final(self).tools_view()) == names_of(old(self).tools_view()),
            flags_of(final(self).tools_view()).len() == old(self).tools_view().len(),
            all_closed(flags_of(final(self).tools_view())),
            first_open(flags_of(final(self).tools_view())) is None,
            final(self).mode_spec() == old(self).mode_spec(),
    {
        let ghost names = names_of(self.tools@);
        let ghost n = self.tools@.len();
        let ghost mode = self.mode;
        let mut i: usize = 0;
        while i < self.tools.len()
            invariant
                i <= self.tools@.len() == n,
                self.mode == mode,
                names_of(self.tools@) == names,
                forall|j: int| 0 <= j < i ==> !(#[trigger] self.tools@[j]).open,
            decreases self.tools@.len() - i,
        {
            set_open(&mut self.tools, i, false);
            proof {
                assert(flags_of(self.tools@)[i as int] == false);
                assert(self.tools@[i as int].open == flags_of(self.tools@)[i as int]);
            }
            i += 1;
        }
        proof {
            let f = flags_of(self.tools@);
            assert forall|j: int| 0 <= j < f.len() implies !(#[trigger] f[j]) by {
                assert(f[j] == self.tools@[j].open);
            }
            lemma_first_open_none(f);
        }
    }

    /// The first open tool, which the narrow layout shows in full.
    pub fn first_open_index(&self) -> (r: Option<usize>)
        ensures
            match r {
                Some(i) => first_open(flags_of(self.tools_view())) == Some(i as int),
                None => first_open(flags_of(self.tools_view())) is None,
            },
    {
        let ghost flags = flags_of(self.tools@);
        let mut i: usize = 0;
        assert(flags.skip(0) =~= flags);
        while i < self.tools.len()
            invariant
                i <= self.tools@.len() == flags.len(),
                flags == flags_of(self.tools@),
                first_open(flags) == (match first_open(flags.skip(i as int)) {
                    Some(k) => Some(k + i),
                    None => None,
                }),
            decreases self.tools@.len() - i,
        {
            proof {
                assert(flags.skip(i as int)[0] == flags[i as int]);
                assert(flags.skip(i as int).drop_first() =~= flags.skip(i + 1));
            }
            if self.tools[i].open {
                return Some(i);
            }
            i += 1;
        }
        assert(flags.skip(i as int) =~= Seq::<bool>::empty());
        None
    }

    /// Whether any tool is open (else the wide layout shows the dashboard).
    pub fn any_open(&self) -> (r: bool)
        ensures
            r == !all_closed(flags_of(self.tools_view())),
    {
        let first = self.first_open_index();
        proof {
            lemma_first_open_none(flags_of(self.tools@));
        }
        first.is_some()
    }

    pub fn set_mode(&mut self, mode: AppMode)
        ensures
            final(self).mode_spec() == mode,
            final(self).tools_view() == old(self).tools_view(),
            final(self).about_spec() == old(self).about_spec(),
    {
        self.mode = mode;
    }

    pub fn mode(&self) -> (r: AppMode)
        ensures
            r == self.mode_spec(),
    {
        self.mode
    }

    /// Show or hide the about window (its menu entry).
    pub fn toggle_about(&mut self)
        ensures
            final(self).about_spec() == !old(self).about_spec(),
            final(self).tools_view() == old(self).tools_view(),
            final(self).mode_spec() == old(self).mode_spec(),
    {
        self.show_about = !self.show_about;
    }

    pub fn set_show_about(&mut self, show: bool)
        ensures
            final(self).about_spec() == show,
            final(self).tools_view() == old(self).tools_view(),
            final(self).mode_spec() == old(self).mode_spec(),
    {
        self.show_about = show;
    }

    pub fn show_about(&self) -> (r: bool)
        ensures
            r == self.about_spec(),
    {
        self.show_about
    }

    pub fn set_sidebar_open(&mut self, open: bool)
        ensures
            final(self).sidebar_spec() == open,
            final(self).tools_view() == old(self).tools_view(),
            final(self).mode_spec() == old(self).mode_spec(),
    {
        self.sidebar_open = open;
    }

    pub fn sidebar_open(&self) -> (r: bool)
        ensures
            r == self.sidebar_spec(),
    {
        self.sidebar_open
    }

    pub fn tools(&self) -> (r: &Vec<ToolState>)
        ensures
            r@ == self.tools_view(),
    {
        &self.tools
    }

    /// The tools, to work on them; what is done to them is what the toolbox
    /// holds afterwards.
    pub fn tools_mut(&mut self) -> (r: &mut Vec<ToolState>)
        ensures
            r@ == old(self).tools_view(),
            final(self).tools_view() == final(r)@,
            final(self).mode_spec() == old(self).mode_spec(),
            final(self).about_spec() == old(self).about_spec(),
    {
        &mut self.tools
    }

    pub closed spec fn notes_spec(&self) -> MarkdownNotes {
        self.markdown_notes
    }

    pub closed spec fn finance_spec(&self) -> FinanceTracker {
        self.finance_tracker
    }

    pub fn markdown_notes(&self) -> (r: &MarkdownNotes)
        ensures
            *r == self.notes_spec(),
    {
        &self.markdown_notes
    }

    /// The notes, to work on them.
    pub fn markdown_notes_mut(&mut self) -> (r: &mut MarkdownNotes)
        ensures
            *r == old(self).notes_spec(),
            final(self).notes_spec() == *final(r),
            final(self).tools_view() == old(self).tools_view(),
            final(self).mode_spec() == old(self).mode_spec(),
    {
        &mut self.markdown_notes
    }

    pub fn finance_tracker(&self) -> (r: &FinanceTracker)
        ensures
            *r == self.finance_spec(),
    {
        &self.finance_tracker
    }

    /// The finance tracker, to work on it.
    pub fn finance_tracker_mut(&mut self) -> (r: &mut FinanceTracker)
        ensures
            *r == old(self).finance_spec(),
            final(self).finance_spec() == *final(r),
            final(self).tools_view() == old(self).tools_view(),
            final(self).mode_spec() == old(self).mode_spec(),
    {
        &mut self.finance_tracker
    }
}

} // verus!
