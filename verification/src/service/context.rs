//! Program contexts, and the ones that sample data comes with.

use vstd::prelude::*;

verus! {

/// A program context, as contracts see it.
pub struct ContextView {
    pub id: Seq<char>,
    pub name: Seq<char>,
}

/// A program context.
#[derive(Debug)]
pub struct ContextRow {
    pub id: String,
    pub name: String,
}

impl View for ContextRow {
    type V = ContextView;

    open spec fn view(&self) -> ContextView {
        ContextView { id: self.id@, name: self.name@ }
    }
}

/// The context of the sample program.
pub open spec fn program_a() -> ContextView {
    ContextView { id: "program_a"@, name: "Context for program_a"@ }
}

/// The context of the sample program.
pub fn context_program_a() -> (row: ContextRow)
    ensures
        row@ == program_a(),
{
    ContextRow { id: "program_a".to_owned(), name: "Context for program_a".to_owned() }
}

/// All sample contexts.
pub fn mock_contexts() -> (rows: Vec<ContextRow>)
    ensures
        rows@.map_values(|r: ContextRow| r@) == seq![program_a()],
{
    let mut rows: Vec<ContextRow> = Vec::new();
    rows.push(context_program_a());
    assert(rows@.map_values(|r: ContextRow| r@) =~= seq![program_a()]);
    rows
}

} // verus!
