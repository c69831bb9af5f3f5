//! The context record that editors publish and tools query: which file
//! the user attends to and where the carets stand in it.
use vstd::prelude::*;

verus! {

/// A caret and its selection anchor, 1-based.
#[derive(Clone, Copy, Debug)]
pub struct Selection {
    pub line: u32,
    pub column: u32,
    pub anchor_line: u32,
    pub anchor_column: u32,
}

/// What an editor attends to: a file and its selections, primary first.
#[derive(Debug)]
pub struct Attention {
    pub file: String,
    pub selections: Vec<Selection>,
}

impl View for Attention {
    type V = (Seq<char>, Seq<Selection>);

    open spec fn view(&self) -> (Seq<char>, Seq<Selection>) {
        (self.file@, self.selections@)
    }
}

impl Clone for Attention {
    fn clone(&self) -> (r: Self)
        ensures
            r@ == self@,
    {
        let mut selections: Vec<Selection> = Vec::new();
        let n = self.selections.len();
        for i in 0..n
            invariant
                n == self.selections.len(),
                selections@ == self.selections@.take(i as int),
        {
            selections.push(self.selections[i]);
            assert(self.selections@.take(i + 1) =~= self.selections@.take(i as int).push(
                self.selections@[i as int],
            ));
        }
        assert(self.selections@.take(n as int) =~= self.selections@);
        Attention { file: self.file.clone(), selections }
    }
}

/// The answer to a context query: the focused window and what it attends to.
#[derive(Debug)]
pub struct ContextResponse {
    pub app_id: Option<String>,
    pub pid: Option<u32>,
    pub attention: Option<Attention>,
}

/// The text of an optional string.
pub open spec fn opt_text(o: Option<String>) -> Option<Seq<char>> {
    match o {
        Some(s) => Some(s@),
        None => None,
    }
}

/// The model of an optional attention.
pub open spec fn opt_attention(o: Option<Attention>) -> Option<(Seq<char>, Seq<Selection>)> {
    match o {
        Some(a) => Some(a@),
        None => None,
    }
}

impl View for ContextResponse {
    type V = (Option<Seq<char>>, Option<u32>, Option<(Seq<char>, Seq<Selection>)>);

    open spec fn view(&self) -> (Option<Seq<char>>, Option<u32>, Option<(Seq<char>, Seq<Selection>)>) {
        (opt_text(self.app_id), self.pid, opt_attention(self.attention))
    }
}

/// Copies an optional string.
pub fn copy_opt_string(o: &Option<String>) -> (r: Option<String>)
    ensures
        opt_text(r) == opt_text(*o),
{
    match o {
        Some(s) => Some(s.clone()),
        None => None,
    }
}

} // verus!
