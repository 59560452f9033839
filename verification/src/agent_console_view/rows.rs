//! The rows of the transcript.

use vstd::prelude::*;

verus! {

/// What a row of the transcript shows.
#[derive(Clone, Copy, Debug, PartialEq, Eq, Structural)]
pub enum ThreadRowKind {
    User,
    Agent,
    ArtifactLink,
    Breather,
    StatusHeader,
    StatusRow,
    StatusSubRow,
}

/// A row of the transcript.
#[derive(Debug)]
pub struct ThreadRow {
    pub text: String,
    pub kind: ThreadRowKind,
}

/// A row of the transcript as a value.
pub struct Row {
    pub text: Seq<char>,
    pub kind: ThreadRowKind,
}

impl View for ThreadRow {
    type V = Row;

    open spec fn view(&self) -> Row {
        Row { text: self.text@, kind: self.kind }
    }
}

impl ThreadRow {
    pub fn copy(&self) -> (r: ThreadRow)
        ensures
            r@ == self@,
    {
        ThreadRow { text: self.text.clone(), kind: self.kind }
    }
}

/// Rows as values.
pub open spec fn rows(v: Seq<ThreadRow>) -> Seq<Row> {
    Seq::new(v.len(), |i: int| v[i]@)
}

pub open spec fn row(text: Seq<char>, kind: ThreadRowKind) -> Row {
    Row { text, kind }
}

/// The same kind of row for each text.
pub open spec fn rows_of(texts: Seq<Seq<char>>, kind: ThreadRowKind) -> Seq<Row> {
    Seq::new(texts.len(), |i: int| row(texts[i], kind))
}

pub broadcast proof fn rows_push(v: Seq<ThreadRow>, r: ThreadRow)
    ensures
        #[trigger] rows(v.push(r)) == rows(v) + seq![r@],
{
    assert(rows(v.push(r)) =~= rows(v) + seq![r@]);
}

pub broadcast proof fn rows_empty()
    ensures
        #[trigger] rows(Seq::<ThreadRow>::empty()) == Seq::<Row>::empty(),
{
    assert(rows(Seq::<ThreadRow>::empty()) =~= Seq::<Row>::empty());
}

pub broadcast proof fn rows_associate(a: Seq<Row>, b: Seq<Row>, c: Seq<Row>)
    ensures
        #[trigger] ((a + b) + c) == a + (b + c),
{
    assert((a + b) + c =~= a + (b + c));
}

pub broadcast proof fn no_rows_behind(a: Seq<Row>)
    ensures
        #[trigger] (a + Seq::<Row>::empty()) == a,
{
    assert(a + Seq::<Row>::empty() =~= a);
}

pub broadcast proof fn no_rows_before(a: Seq<Row>)
    ensures
        #[trigger] (Seq::<Row>::empty() + a) == a,
{
    assert(Seq::<Row>::empty() + a =~= a);
}

pub broadcast group group_rows {
    rows_push,
    rows_empty,
    rows_associate,
    no_rows_behind,
    no_rows_before,
}

pub fn push_row(out: &mut Vec<ThreadRow>, text: String, kind: ThreadRowKind)
    ensures
        rows(final(out)@) == rows(old(out)@) + seq![row(text@, kind)],
{
    broadcast use group_rows;

    out.push(ThreadRow { text, kind });
}

/// Puts the rows of `more` behind those of `out`.
pub fn append_rows(out: &mut Vec<ThreadRow>, more: Vec<ThreadRow>)
    ensures
        rows(final(out)@) == rows(old(out)@) + rows(more@),
{
    let ghost before: Seq<ThreadRow> = out@;
    let mut rest: Vec<ThreadRow> = more;
    out.append(&mut rest);
    assert(rows(out@) =~= rows(before) + rows(more@));
}

/// The texts of rows.
pub open spec fn texts_of(v: Seq<Row>) -> Seq<Seq<char>> {
    Seq::new(v.len(), |i: int| v[i].text)
}

} // verus!
