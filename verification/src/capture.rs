use vstd::prelude::*;

verus! {

/// One node captured by a query match, as plain values: the index of the
/// capture's name in its query, the node's grammar kind, its byte range in
/// the source and its zero-based start and end rows.
#[derive(Debug)]
pub struct CaptureData {
    pub index: u32,
    pub kind: String,
    pub start_byte: usize,
    pub end_byte: usize,
    pub start_row: usize,
    pub end_row: usize,
}

/// The mathematical value of a captured node.
pub struct CaptureView {
    pub index: u32,
    pub kind: Seq<char>,
    pub start_byte: usize,
    pub end_byte: usize,
    pub start_row: usize,
    pub end_row: usize,
}

impl View for CaptureData {
    type V = CaptureView;

    open spec fn view(&self) -> CaptureView {
        CaptureView {
            index: self.index,
            kind: self.kind@,
            start_byte: self.start_byte,
            end_byte: self.end_byte,
            start_row: self.start_row,
            end_row: self.end_row,
        }
    }
}

/// One match of a query: its captures, in the order the query reports them.
#[derive(Debug)]
pub struct MatchData {
    pub captures: Vec<CaptureData>,
}

impl View for MatchData {
    type V = Seq<CaptureView>;

    open spec fn view(&self) -> Seq<CaptureView> {
        self.captures@.map_values(|c: CaptureData| c@)
    }
}

} // verus!
