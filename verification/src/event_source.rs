//! The Server-Sent-Events fragment parser.
//!
//! Each completed line is classified by its literal prefix, first match
//! wins: a leading colon makes a comment, then the field prefixes `data:`,
//! `event:`, `id:` and `retry:`. The value is the remainder of the line with
//! leading whitespace trimmed. A line matching no prefix, a blank line
//! included, is silently discarded and yields no fragment.

use vstd::prelude::*;

verus! {

use vstd::slice::slice_subrange;
use vstd::slice::slice_to_vec;

/// One classified field parsed from a single protocol line.
#[derive(Debug)]
pub enum EventSourceFragment {
    Comment(Vec<u8>),
    Data(Vec<u8>),
    Event(Vec<u8>),
    Id(Vec<u8>),
    Retry(Vec<u8>),
}

/// The mathematical model of a fragment: the same five shapes over byte
/// sequences.
pub enum FragmentModel {
    Comment(Seq<u8>),
    Data(Seq<u8>),
    Event(Seq<u8>),
    Id(Seq<u8>),
    Retry(Seq<u8>),
}

impl View for EventSourceFragment {
    type V = FragmentModel;

    open spec fn view(&self) -> FragmentModel {
        match self {
            EventSourceFragment::Comment(v) => FragmentModel::Comment(v@),
            EventSourceFragment::Data(v) => FragmentModel::Data(v@),
            EventSourceFragment::Event(v) => FragmentModel::Event(v@),
            EventSourceFragment::Id(v) => FragmentModel::Id(v@),
            EventSourceFragment::Retry(v) => FragmentModel::Retry(v@),
        }
    }
}

/// An ASCII whitespace byte: space, tab, line feed, form feed or carriage
/// return.
pub open spec fn is_ws(b: u8) -> bool {
    b == 32 || b == 9 || b == 10 || b == 12 || b == 13
}

/// The sequence with its leading whitespace bytes removed.
pub open spec fn trim_start_ws(s: Seq<u8>) -> Seq<u8>
    decreases s.len(),
{
    if s.len() > 0 && is_ws(s.first()) {
        trim_start_ws(s.drop_first())
    } else {
        s
    }
}

/// `s` begins with the bytes of `p`.
pub open spec fn starts_with(s: Seq<u8>, p: Seq<u8>) -> bool {
    p.len() <= s.len() && forall|i: int| 0 <= i < p.len() ==> s[i] == p[i]
}

pub open spec fn colon_prefix() -> Seq<u8> {
    seq![58u8]
}

pub open spec fn data_prefix() -> Seq<u8> {
    seq![100u8, 97u8, 116u8, 97u8, 58u8]
}

pub open spec fn event_prefix() -> Seq<u8> {
    seq![101u8, 118u8, 101u8, 110u8, 116u8, 58u8]
}

pub open spec fn id_prefix() -> Seq<u8> {
    seq![105u8, 100u8, 58u8]
}

pub open spec fn retry_prefix() -> Seq<u8> {
    seq![114u8, 101u8, 116u8, 114u8, 121u8, 58u8]
}

/// The classification of one completed line: the fragment it yields, or
/// nothing for an unrecognized line.
pub open spec fn classify(line: Seq<u8>) -> Option<FragmentModel> {
    if starts_with(line, colon_prefix()) {
        Some(FragmentModel::Comment(trim_start_ws(line.skip(1))))
    } else if starts_with(line, data_prefix()) {
        Some(FragmentModel::Data(trim_start_ws(line.skip(5))))
    } else if starts_with(line, event_prefix()) {
        Some(FragmentModel::Event(trim_start_ws(line.skip(6))))
    } else if starts_with(line, id_prefix()) {
        Some(FragmentModel::Id(trim_start_ws(line.skip(3))))
    } else if starts_with(line, retry_prefix()) {
        Some(FragmentModel::Retry(trim_start_ws(line.skip(6))))
    } else {
        None
    }
}

/// A blank line yields no fragment.
pub proof fn lemma_blank_line()
    ensures
        classify(Seq::<u8>::empty()) is None,
{
}

/// Trimming does nothing to a sequence that does not begin with whitespace.
proof fn lemma_trim_nop(s: Seq<u8>)
    requires
        s.len() == 0 || !is_ws(s.first()),
    ensures
        trim_start_ws(s) == s,
{
}

/// Trimming removes one leading whitespace byte and goes on.
proof fn lemma_trim_step(s: Seq<u8>)
    requires
        s.len() > 0,
        is_ws(s.first()),
    ensures
        trim_start_ws(s) == trim_start_ws(s.drop_first()),
{
}

/// Any line `data:` followed by a remainder yields exactly one data
/// fragment carrying the remainder with its leading whitespace trimmed.
pub proof fn lemma_data_line_general(rest: Seq<u8>)
    ensures
        classify(data_prefix() + rest) == Some(FragmentModel::Data(trim_start_ws(rest))),
{
    let line = data_prefix() + rest;
    assert(!starts_with(line, colon_prefix())) by {
        assert(line[0] == 100u8);
    }
    assert(starts_with(line, data_prefix()));
    assert(line.skip(5) =~= rest);
}

/// A line `data:` followed by value `v` yields exactly one data fragment
/// carrying `v`, and so does the same line with one space after the prefix,
/// provided `v` itself does not begin with whitespace.
pub proof fn lemma_data_line(v: Seq<u8>)
    requires
        v.len() == 0 || !is_ws(v.first()),
    ensures
        classify(data_prefix() + v) == Some(FragmentModel::Data(v)),
        classify(data_prefix() + seq![32u8] + v) == Some(FragmentModel::Data(v)),
{
    lemma_data_line_general(v);
    lemma_trim_nop(v);
    lemma_data_line_general(seq![32u8] + v);
    assert(data_prefix() + seq![32u8] + v =~= data_prefix() + (seq![32u8] + v));
    assert((seq![32u8] + v).drop_first() =~= v);
    lemma_trim_step(seq![32u8] + v);
}

/// `line` begins with the bytes of `prefix`.
fn has_prefix(line: &Vec<u8>, prefix: &Vec<u8>) -> (r: bool)
    ensures
        r == starts_with(line@, prefix@),
{
    if prefix.len() > line.len() {
        return false;
    }
    let mut i: usize = 0;
    while i < prefix.len()
        invariant
            i <= prefix.len(),
            prefix@.len() <= line@.len(),
            forall|j: int| 0 <= j < i ==> line@[j] == prefix@[j],
        decreases prefix.len() - i,
    {
        if line[i] != prefix[i] {
            return false;
        }
        i = i + 1;
    }
    true
}

/// `b` is an ASCII whitespace byte.
fn is_ws_byte(b: u8) -> (r: bool)
    ensures
        r == is_ws(b),
{
    b == 32 || b == 9 || b == 10 || b == 12 || b == 13
}

/// The remainder of `line` from `start` on, with leading whitespace trimmed.
fn trim_value(line: &Vec<u8>, start: usize) -> (v: Vec<u8>)
    requires
        start <= line@.len(),
    ensures
        v@ == trim_start_ws(line@.skip(start as int)),
{
    let mut i: usize = start;
    while i < line.len() && is_ws_byte(line[i])
        invariant
            start <= i <= line@.len(),
            trim_start_ws(line@.skip(start as int)) == trim_start_ws(line@.skip(i as int)),
        decreases line@.len() - i,
    {
        proof {
            assert(line@.skip(i as int).first() == line@[i as int]);
            assert(line@.skip(i as int).drop_first() =~= line@.skip(i + 1));
            lemma_trim_step(line@.skip(i as int));
        }
        i = i + 1;
    }
    proof {
        if i < line@.len() {
            assert(line@.skip(i as int).first() == line@[i as int]);
        } else {
            assert(line@.skip(i as int) =~= Seq::<u8>::empty());
        }
        lemma_trim_nop(line@.skip(i as int));
    }
    let v = slice_to_vec(slice_subrange(line.as_slice(), i, line.len()));
    proof {
        assert(line@.subrange(i as int, line@.len() as int) =~= line@.skip(i as int));
    }
    v
}

/// Classify one completed line, yielding its fragment or nothing.
pub fn parse_line(line: &Vec<u8>) -> (r: Option<EventSourceFragment>)
    ensures
        match r {
            Some(f) => classify(line@) == Some(f@),
            None => classify(line@) is None,
        },
{
    let colon: Vec<u8> = vec![58u8];
    let data: Vec<u8> = vec![100u8, 97u8, 116u8, 97u8, 58u8];
    let event: Vec<u8> = vec![101u8, 118u8, 101u8, 110u8, 116u8, 58u8];
    let id: Vec<u8> = vec![105u8, 100u8, 58u8];
    let retry: Vec<u8> = vec![114u8, 101u8, 116u8, 114u8, 121u8, 58u8];
    if has_prefix(line, &colon) {
        Some(EventSourceFragment::Comment(trim_value(line, 1)))
    } else if has_prefix(line, &data) {
        Some(EventSourceFragment::Data(trim_value(line, 5)))
    } else if has_prefix(line, &event) {
        Some(EventSourceFragment::Event(trim_value(line, 6)))
    } else if has_prefix(line, &id) {
        Some(EventSourceFragment::Id(trim_value(line, 3)))
    } else if has_prefix(line, &retry) {
        Some(EventSourceFragment::Retry(trim_value(line, 6)))
    } else {
        None
    }
}

/// The fragments yielded by a sequence of completed lines, in order, the
/// unrecognized lines discarded.
pub open spec fn fragments_of(lines: Seq<Seq<u8>>) -> Seq<FragmentModel>
    decreases lines.len(),
{
    if lines.len() == 0 {
        Seq::empty()
    } else {
        match classify(lines.first()) {
            Some(f) => seq![f] + fragments_of(lines.drop_first()),
            None => fragments_of(lines.drop_first()),
        }
    }
}

/// The fragments of concatenated line sequences are the fragments of the
/// parts, in order.
pub proof fn lemma_fragments_append(s: Seq<Seq<u8>>, t: Seq<Seq<u8>>)
    ensures
        fragments_of(s + t) == fragments_of(s) + fragments_of(t),
    decreases s.len(),
{
    if s.len() == 0 {
        assert(s + t =~= t);
        assert(fragments_of(s) + fragments_of(t) =~= fragments_of(t));
    } else {
        assert((s + t).first() == s.first());
        assert((s + t).drop_first() =~= s.drop_first() + t);
        lemma_fragments_append(s.drop_first(), t);
        match classify(s.first()) {
            Some(f) => {
                assert(seq![f] + (fragments_of(s.drop_first()) + fragments_of(t)) =~= (seq![f]
                    + fragments_of(s.drop_first())) + fragments_of(t));
            },
            None => {},
        }
    }
}

/// The fragments of one line.
pub proof fn lemma_fragments_singleton(line: Seq<u8>)
    ensures
        classify(line) matches Some(f) ==> fragments_of(seq![line]) == seq![f],
        classify(line) is None ==> fragments_of(seq![line]) == Seq::<FragmentModel>::empty(),
{
    let s = seq![line];
    assert(s.drop_first() =~= Seq::<Seq<u8>>::empty());
    assert(fragments_of(Seq::<Seq<u8>>::empty()) == Seq::<FragmentModel>::empty());
    match classify(line) {
        Some(f) => {
            assert(fragments_of(s) =~= seq![f] + Seq::<FragmentModel>::empty());
            assert(seq![f] + Seq::<FragmentModel>::empty() =~= seq![f]);
        },
        None => {},
    }
}

/// Classify a batch of completed lines, yielding their fragments in order.
pub fn parse_lines(lines: &Vec<Vec<u8>>) -> (frags: Vec<EventSourceFragment>)
    ensures
        frags@.map_values(|f: EventSourceFragment| f@) == fragments_of(lines.deep_view()),
{
    let mut frags: Vec<EventSourceFragment> = Vec::new();
    let mut i: usize = 0;
    proof {
        assert(lines.deep_view().take(0) =~= Seq::<Seq<u8>>::empty());
        assert(frags@.map_values(|f: EventSourceFragment| f@) =~= fragments_of(
            lines.deep_view().take(0),
        ));
    }
    while i < lines.len()
        invariant
            i <= lines.len(),
            lines.deep_view().len() == lines@.len(),
            forall|j: int| 0 <= j < lines@.len() ==> lines.deep_view()[j] == #[trigger] lines@[j]@,
            frags@.map_values(|f: EventSourceFragment| f@) == fragments_of(
                lines.deep_view().take(i as int),
            ),
        decreases lines.len() - i,
    {
        let ghost dv = lines.deep_view();
        proof {
            assert(dv.take(i + 1) =~= dv.take(i as int) + seq![dv[i as int]]);
            lemma_fragments_append(dv.take(i as int), seq![dv[i as int]]);
            lemma_fragments_singleton(dv[i as int]);
        }
        match parse_line(&lines[i]) {
            Some(f) => {
                frags.push(f);
                proof {
                    assert(frags@.map_values(|f: EventSourceFragment| f@) =~= fragments_of(
                        dv.take(i + 1),
                    ));
                }
            },
            None => {
                proof {
                    assert(fragments_of(dv.take(i + 1)) =~= fragments_of(dv.take(i as int))
                        + Seq::<FragmentModel>::empty());
                    assert(fragments_of(dv.take(i as int)) + Seq::<FragmentModel>::empty()
                        =~= fragments_of(dv.take(i as int)));
                }
            },
        }
        i = i + 1;
    }
    proof {
        assert(lines.deep_view().take(lines@.len() as int) =~= lines.deep_view());
    }
    frags
}

} // verus!
