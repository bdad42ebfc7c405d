//! The individual tools of the toolbox, and the kinds of tool the tools
//! panel lists.
pub mod base64_converter;
pub mod diff_viewer;
pub mod epoch_converter;
pub mod finance_stats;
pub mod finance_tracker;
pub mod format_converter;
pub mod hash_generator;
pub mod jwt_debugger;
pub mod markdown_notes;
pub mod password_generator;
pub mod qr_code_generator;
pub mod regex_tester;
pub mod todo_list;
pub mod uuid_generator;

use vstd::prelude::*;

verus! {

/// One tool of the tools panel, with its state.
pub enum ToolKind {
    FormatConverter(format_converter::FormatConverter),
    EpochConverter(epoch_converter::EpochConverter),
    Base64Converter(base64_converter::Base64Converter),
    JwtDebugger(jwt_debugger::JwtDebugger),
    UuidGenerator(uuid_generator::UuidGenerator),
    HashGenerator(hash_generator::HashGenerator),
    PasswordGenerator(password_generator::PasswordGenerator),
    RegexTester(regex_tester::RegexTester),
    QrCodeGenerator(qr_code_generator::QrCodeGenerator),
    DiffViewer(diff_viewer::DiffViewer),
    TodoList(todo_list::TodoList),
}

/// The title of a kind of tool.
pub open spec fn tool_name_spec(t: ToolKind) -> Seq<char> {
    match t {
        ToolKind::FormatConverter(_) => "Format Converter"@,
        ToolKind::EpochConverter(_) => "Epoch Converter"@,
        ToolKind::Base64Converter(_) => "Base64 Converter"@,
        ToolKind::JwtDebugger(_) => "JWT Debugger"@,
        ToolKind::UuidGenerator(_) => "UUID Generator"@,
        ToolKind::HashGenerator(_) => "Hash Generator"@,
        ToolKind::PasswordGenerator(_) => "Password Generator"@,
        ToolKind::RegexTester(_) => "Regex Tester"@,
        ToolKind::QrCodeGenerator(_) => "QR Code Generator"@,
        ToolKind::DiffViewer(_) => "Diff Viewer"@,
        ToolKind::TodoList(_) => "Todo List"@,
    }
}

impl ToolKind {
    /// The tool's title.
    pub fn name(&self) -> (r: &'static str)
        ensures
            r@ == tool_name_spec(*self),
    {
        match self {
            ToolKind::FormatConverter(_) => "Format Converter",
            ToolKind::EpochConverter(_) => "Epoch Converter",
            ToolKind::Base64Converter(_) => "Base64 Converter",
            ToolKind::JwtDebugger(_) => "JWT Debugger",
            ToolKind::UuidGenerator(_) => "UUID Generator",
            ToolKind::HashGenerator(_) => "Hash Generator",
            ToolKind::PasswordGenerator(_) => "Password Generator",
            ToolKind::RegexTester(_) => "Regex Tester",
            ToolKind::QrCodeGenerator(_) => "QR Code Generator",
            ToolKind::DiffViewer(_) => "Diff Viewer",
            ToolKind::TodoList(_) => "Todo List",
        }
    }
}

} // verus!
