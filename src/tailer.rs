//! How far a log file has been read, and which complete lines each new read yields.
use vstd::prelude::*;

use crate::text::{chars_of, string_of, strip_cr, strip_cr_chars};

verus! {

/// The read position of one file, and the unterminated fragment that ended the last read.
pub struct TailerModel {
    pub offset: nat,
    pub partial: Seq<char>,
}

pub open spec fn fresh_tailer() -> TailerModel {
    TailerModel { offset: 0, partial: Seq::empty() }
}

/// Where a read starts: a file now shorter than the recorded offset was truncated or
/// replaced, so reading starts over with nothing carried.
pub open spec fn resume(st: TailerModel, file_len: nat) -> TailerModel {
    if st.offset > file_len {
        fresh_tailer()
    } else {
        st
    }
}

/// Scanning `chunk` after the carried fragment `carry`: the complete lines so far, the
/// carried part of the current line (what is left of `carry`), and the part of the current
/// line that came with `chunk`. A line is the carried part followed by its new part, which
/// loses the line break and any carriage returns before it.
pub open spec fn scan(carry: Seq<char>, chunk: Seq<char>) -> (
    Seq<Seq<char>>,
    Seq<char>,
    Seq<char>,
)
    decreases chunk.len(),
{
    if chunk.len() == 0 {
        (Seq::empty(), carry, Seq::empty())
    } else {
        let (lines, head, seg) = scan(carry, chunk.drop_last());
        if chunk.last() == '\n' {
            (lines.push(head + strip_cr(seg)), Seq::empty(), Seq::empty())
        } else {
            (lines, head, seg.push(chunk.last()))
        }
    }
}

/// The complete lines of `carry` followed by `chunk`, and the unterminated rest.
pub open spec fn feed(carry: Seq<char>, chunk: Seq<char>) -> (Seq<Seq<char>>, Seq<char>) {
    let (lines, head, seg) = scan(carry, chunk);
    (lines, head + seg)
}

/// One read of a file of length `file_len` that yielded the text `chunk` and left the
/// stream at `new_pos`: the new complete lines, and the new state.
pub open spec fn read_step(st: TailerModel, file_len: nat, chunk: Seq<char>, new_pos: nat) -> (
    Seq<Seq<char>>,
    TailerModel,
) {
    let (lines, rest) = feed(resume(st, file_len).partial, chunk);
    (lines, TailerModel { offset: new_pos, partial: rest })
}

pub open spec fn lines_view(v: Seq<String>) -> Seq<Seq<char>> {
    v.map_values(|l: String| l@)
}

pub open spec fn no_line_break(s: Seq<char>) -> bool {
    forall|j: int| 0 <= j < s.len() ==> s[j] != '\n'
}

/// The read state of one file.
pub struct TailerState {
    offset: u64,
    partial: String,
}

impl View for TailerState {
    type V = TailerModel;

    closed spec fn view(&self) -> TailerModel {
        TailerModel { offset: self.offset as nat, partial: self.partial@ }
    }
}

impl TailerState {
    /// A file not read yet.
    pub fn new() -> (r: Self)
        ensures
            r@ == fresh_tailer(),
    {
        TailerState { offset: 0, partial: String::new() }
    }

    /// The byte offset up to which the file has been read.
    pub fn offset(&self) -> (r: u64)
        ensures
            r == self@.offset,
    {
        self.offset
    }

    /// The unterminated fragment carried to the next read.
    pub fn partial(&self) -> (r: String)
        ensures
            r@ == self@.partial,
    {
        self.partial.clone()
    }

    /// The offset to read from, given the file's current length.
    pub fn start_offset(&self, file_len: u64) -> (r: u64)
        ensures
            r == resume(self@, file_len as nat).offset,
    {
        if self.offset > file_len {
            0
        } else {
            self.offset
        }
    }

    /// Takes in what a read from `start_offset(file_len)` returned: the text `chunk`, with the
    /// stream left at `new_pos`. Returns the lines that it completes, and keeps the
    /// unterminated rest for the next read.
    pub fn record_read(&mut self, file_len: u64, chunk: &str, new_pos: u64) -> (lines: Vec<String>)
        ensures
            lines_view(lines@) == read_step(old(self)@, file_len as nat, chunk@, new_pos as nat).0,
            final(self)@ == read_step(old(self)@, file_len as nat, chunk@, new_pos as nat).1,
    {
        let mut head: Vec<char> = if self.offset > file_len {
            Vec::new()
        } else {
            chars_of(self.partial.as_str())
        };
        let ghost start = head@;
        assert(start == resume(self@, file_len as nat).partial);
        let cs = chars_of(chunk);
        let mut seg: Vec<char> = Vec::new();
        let mut lines: Vec<String> = Vec::new();
        let mut i: usize = 0;
        assert(cs@.take(0) =~= Seq::<char>::empty());
        while i < cs.len()
            invariant
                i <= cs@.len(),
                (lines_view(lines@), head@, seg@) == scan(start, cs@.take(i as int)),
            decreases cs@.len() - i,
        {
            let c = cs[i];
            assert(cs@.take(i + 1).drop_last() =~= cs@.take(i as int));
            assert(cs@.take(i + 1).last() == c);
            if c == '\n' {
                let mut line = head;
                let mut tail = strip_cr_chars(seg.as_slice());
                let ghost before = lines@;
                let ghost h = line@;
                let ghost t = tail@;
                line.append(&mut tail);
                assert(line@ == h + t);
                lines.push(string_of(line.as_slice()));
                assert(lines_view(lines@) =~= lines_view(before).push(h + t));
                head = Vec::new();
                seg = Vec::new();
            } else {
                seg.push(c);
            }
            i += 1;
        }
        assert(cs@.take(cs@.len() as int) =~= cs@);
        self.offset = new_pos;
        head.append(&mut seg);
        self.partial = string_of(head.as_slice());
        lines
    }
}

/// Text without a line break only grows the new part of the current line.
pub proof fn lemma_scan_fragment(carry: Seq<char>, s: Seq<char>)
    requires
        no_line_break(s),
    ensures
        scan(carry, s) == (Seq::<Seq<char>>::empty(), carry, s),
    decreases s.len(),
{
    if s.len() > 0 {
        lemma_scan_fragment(carry, s.drop_last());
        assert(s.drop_last().push(s.last()) =~= s);
    } else {
        assert(s =~= Seq::<char>::empty());
    }
}

/// A text that does not end in a carriage return keeps all its characters.
pub proof fn lemma_strip_cr_noop(s: Seq<char>)
    requires
        s.len() == 0 || s.last() != '\r',
    ensures
        strip_cr(s) == s,
{
}

/// Reading again when nothing was written yields no line and leaves the state as it was.
pub proof fn lemma_reread_is_idle(st: TailerModel, file_len: nat)
    requires
        st.offset <= file_len,
    ensures
        read_step(st, file_len, Seq::empty(), st.offset) == (Seq::<Seq<char>>::empty(), st),
{
}

/// A fragment without a line break yields no line and is kept; the read that completes it
/// yields the fragments joined as exactly one line. Carriage returns are dropped only from
/// the end of the part that arrived with the line break.
pub proof fn lemma_fragment_completed(
    st: TailerModel,
    len1: nat,
    frag: Seq<char>,
    pos1: nat,
    len2: nat,
    rest: Seq<char>,
    pos2: nat,
)
    requires
        st.offset <= len1,
        pos1 <= len2,
        no_line_break(frag),
        no_line_break(rest),
    ensures
        read_step(st, len1, frag, pos1).0 == Seq::<Seq<char>>::empty(),
        read_step(st, len1, frag, pos1).1.partial == st.partial + frag,
        read_step(read_step(st, len1, frag, pos1).1, len2, rest.push('\n'), pos2).0 == seq![
            st.partial + frag + strip_cr(rest),
        ],
        rest.len() == 0 || rest.last() != '\r' ==> read_step(
            read_step(st, len1, frag, pos1).1,
            len2,
            rest.push('\n'),
            pos2,
        ).0 == seq![st.partial + frag + rest],
        read_step(read_step(st, len1, frag, pos1).1, len2, rest.push('\n'), pos2).1.partial
            == Seq::<char>::empty(),
{
    lemma_scan_fragment(st.partial, frag);
    let mid = read_step(st, len1, frag, pos1).1;
    assert(mid.partial == st.partial + frag);
    lemma_scan_fragment(mid.partial, rest);
    assert(rest.push('\n').drop_last() =~= rest);
    assert(Seq::<Seq<char>>::empty().push(st.partial + frag + strip_cr(rest)) =~= seq![
        st.partial + frag + strip_cr(rest),
    ]);
    assert(Seq::<char>::empty() + Seq::<char>::empty() =~= Seq::<char>::empty());
    if rest.len() == 0 || rest.last() != '\r' {
        lemma_strip_cr_noop(rest);
    }
}

/// After the file shrank below the recorded offset, reading starts at offset zero and the
/// carried fragment is dropped.
pub proof fn lemma_truncation_restarts(
    st: TailerModel,
    file_len: nat,
    chunk: Seq<char>,
    new_pos: nat,
)
    requires
        file_len < st.offset,
    ensures
        resume(st, file_len).offset == 0,
        read_step(st, file_len, chunk, new_pos) == read_step(
            fresh_tailer(),
            file_len,
            chunk,
            new_pos,
        ),
        read_step(st, file_len, chunk, new_pos).0 == feed(Seq::empty(), chunk).0,
        read_step(st, file_len, chunk, new_pos).1.partial == feed(Seq::empty(), chunk).1,
{
}

/// Text without a line break after any prefix only grows the new part of the current line.
pub proof fn lemma_scan_append_fragment(carry: Seq<char>, x: Seq<char>, b: Seq<char>)
    requires
        no_line_break(b),
    ensures
        scan(carry, x + b) == (scan(carry, x).0, scan(carry, x).1, scan(carry, x).2 + b),
    decreases b.len(),
{
    if b.len() == 0 {
        assert(x + b =~= x);
        assert(scan(carry, x).2 + b =~= scan(carry, x).2);
    } else {
        lemma_scan_append_fragment(carry, x, b.drop_last());
        assert((x + b).drop_last() =~= x + b.drop_last());
        assert((x + b).last() == b.last());
        assert(scan(carry, x).2 + b.drop_last() + seq![b.last()] =~= scan(carry, x).2 + b);
        assert((scan(carry, x).2 + b.drop_last()).push(b.last()) =~= scan(carry, x).2 + b);
    }
}

/// After the file shrank below the recorded offset, a read of one line `a` and a fragment
/// `b` yields exactly the line `a`, with nothing of the old fragment before it, and keeps `b`.
pub proof fn lemma_truncation_reads_from_start(
    st: TailerModel,
    file_len: nat,
    a: Seq<char>,
    b: Seq<char>,
    new_pos: nat,
)
    requires
        file_len < st.offset,
        no_line_break(a),
        no_line_break(b),
    ensures
        read_step(st, file_len, a.push('\n') + b, new_pos).0 == seq![strip_cr(a)],
        read_step(st, file_len, a.push('\n') + b, new_pos).1 == (TailerModel {
            offset: new_pos,
            partial: b,
        }),
{
    let e = Seq::<char>::empty();
    lemma_scan_fragment(e, a);
    assert(a.push('\n').drop_last() =~= a);
    assert(e + strip_cr(a) =~= strip_cr(a));
    assert(scan(e, a.push('\n')) == (seq![strip_cr(a)], e, e)) by {
        assert(Seq::<Seq<char>>::empty().push(strip_cr(a)) =~= seq![strip_cr(a)]);
    };
    lemma_scan_append_fragment(e, a.push('\n'), b);
    assert(e + (e + b) =~= b);
}

} // verus!
