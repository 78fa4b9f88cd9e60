//! The text in which a trajectory is kept on disk.
//!
//! One line for each sample: the time and the three coordinates, in this
//! order, a single tab between two of them, a line feed behind the last, and
//! no header line. The numbers come here already written out; how a number
//! is written is the caller's business.

use vstd::prelude::*;
use vstd::string::StringExecFns;

verus! {

/// The four numbers of one sample as text.
#[derive(Clone, Debug)]
pub struct Row {
    pub time: String,
    pub x: String,
    pub y: String,
    pub z: String,
}

/// The line of one sample.
pub open spec fn line_of(row: Row) -> Seq<char> {
    row.time@ + seq!['\t'] + row.x@ + seq!['\t'] + row.y@ + seq!['\t'] + row.z@ + seq!['\n']
}

/// The lines of the samples, one behind the other.
pub open spec fn text_of(rows: Seq<Row>) -> Seq<char>
    decreases rows.len(),
{
    if rows.len() == 0 {
        Seq::empty()
    } else {
        text_of(rows.drop_last()) + line_of(rows.last())
    }
}

/// Writes out a trajectory: the line of each sample in order. No sample
/// gives the empty text.
pub fn trajectory_text(rows: &Vec<Row>) -> (text: String)
    ensures
        text@ == text_of(rows@),
{
    let mut text: String = String::new();
    let n: usize = rows.len();
    let mut i: usize = 0;
    proof {
        reveal_strlit("\t");
        reveal_strlit("\n");
    }
    while i < n
        invariant
            n == rows@.len(),
            i <= n,
            text@ == text_of(rows@.take(i as int)),
            "\t"@ == seq!['\t'],
            "\n"@ == seq!['\n'],
        decreases n - i,
    {
        let row = &rows[i];
        let ghost before = text@;
        text.append(row.time.as_str());
        text.append("\t");
        text.append(row.x.as_str());
        text.append("\t");
        text.append(row.y.as_str());
        text.append("\t");
        text.append(row.z.as_str());
        text.append("\n");
        proof {
            assert(text@ =~= before + line_of(rows@[i as int]));
            assert(rows@.take(i + 1).drop_last() =~= rows@.take(i as int));
        }
        i = i + 1;
    }
    assert(rows@.take(n as int) =~= rows@);
    text
}

} // verus!
