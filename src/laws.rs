use vstd::prelude::*;
use crate::args::Format;
use crate::state::{all_records, finish_outputs, records_for, State};
use crate::writers::{closing, json_doc, lines_of, raw_text, values_of, Phase, RecordView, Sink};

verus! {

/// Number of newline bytes in a byte string.
pub open spec fn newlines(s: Seq<u8>) -> nat
    decreases s.len(),
{
    if s.len() == 0 {
        0
    } else {
        newlines(s.drop_last()) + if s.last() == 10u8 {
            1nat
        } else {
            0nat
        }
    }
}

/// Whether a line holds no newline byte.
pub open spec fn single_line(l: Seq<u8>) -> bool {
    forall|j: int| 0 <= j < l.len() ==> l[j] != 10u8
}

proof fn lemma_newlines_concat(a: Seq<u8>, b: Seq<u8>)
    ensures
        newlines(a + b) == newlines(a) + newlines(b),
    decreases b.len(),
{
    if b.len() == 0 {
        assert(a + b =~= a);
    } else {
        lemma_newlines_concat(a, b.drop_last());
        assert((a + b).drop_last() =~= a + b.drop_last());
    }
}

proof fn lemma_no_newlines(l: Seq<u8>)
    requires
        single_line(l),
    ensures
        newlines(l) == 0,
    decreases l.len(),
{
    if l.len() > 0 {
        lemma_no_newlines(l.drop_last());
    }
}

/// Text output of single-line records holds exactly one newline per record,
/// and ends in one when there is any record.
pub proof fn lemma_raw_line_count(lines: Seq<Seq<u8>>)
    requires
        forall|i: int| 0 <= i < lines.len() ==> single_line(#[trigger] lines[i]),
    ensures
        newlines(raw_text(lines)) == lines.len(),
        lines.len() > 0 ==> raw_text(lines).last() == 10u8,
    decreases lines.len(),
{
    if lines.len() > 0 {
        let l = lines.last();
        assert(single_line(lines[lines.len() - 1]));
        lemma_raw_line_count(lines.drop_last());
        lemma_newlines_concat(raw_text(lines.drop_last()), l.push(10u8));
        assert(l.push(10u8).drop_last() =~= l);
        lemma_no_newlines(l);
    }
}

/// A text sink that has been opened has emitted one line per record written
/// to it, each ending in a single newline, provided no record's line holds
/// a newline itself.
pub proof fn lemma_raw_sink_lines(s: Sink)
    requires
        s.wf(),
        s.format() == Format::Raw,
        s.phase() != Phase::Fresh,
        forall|i: int| 0 <= i < s.records().len() ==> single_line(#[trigger] s.records()[i].line),
    ensures
        s.emitted() == raw_text(lines_of(s.records())),
        newlines(s.emitted()) == s.records().len(),
{
    let ls = lines_of(s.records());
    assert forall|i: int| 0 <= i < ls.len() implies single_line(#[trigger] ls[i]) by {
        assert(ls[i] == s.records()[i].line);
    }
    lemma_raw_line_count(ls);
}

/// An open JSON sink, once finished, has emitted one array whose elements
/// are the JSON values of the records written to it, in order, one each.
pub proof fn lemma_json_sink_document(s: Sink)
    requires
        s.wf(),
        s.format() == Format::Json,
        s.phase() == Phase::Open,
    ensures
        s.emitted() + closing(s) == json_doc(values_of(s.records())),
        values_of(s.records()).len() == s.records().len(),
{
    assert(s.emitted() + closing(s) =~= json_doc(values_of(s.records())));
}

/// In global mode there is exactly one sink per requested format, and each
/// has received every dispatched record, in dispatch order, whatever task
/// ids they came from.
pub proof fn lemma_global_sinks(s: State)
    requires
        s.wf(),
        !s.finished(),
        !s.per_task(),
    ensures
        s.global().len() == s.formats().len(),
        s.tids().len() == 0,
        forall|i: int|
            #![trigger s.global()[i]]
            0 <= i < s.global().len() ==> s.global()[i].format() == s.formats()[i]
                && s.global()[i].records() == all_records(s.log()),
        all_records(s.log()).len() == s.log().len(),
{
}

proof fn lemma_records_for_nonempty(log: Seq<(isize, RecordView)>, t: isize)
    ensures
        records_for(log, t).len() > 0 <==> exists|k: int| 0 <= k < log.len() && log[k].0 == t,
    decreases log.len(),
{
    if log.len() > 0 {
        lemma_records_for_nonempty(log.drop_last(), t);
        if records_for(log.drop_last(), t).len() > 0 {
            let k = choose|k: int| 0 <= k < log.len() - 1 && log.drop_last()[k].0 == t;
            assert(log[k].0 == t);
        }
        if exists|k: int| 0 <= k < log.len() && log[k].0 == t {
            let k = choose|k: int| 0 <= k < log.len() && log[k].0 == t;
            if k < log.len() - 1 {
                assert(log.drop_last()[k].0 == t);
            }
        }
    }
}

/// In per-task mode a task id has sinks exactly when some record came from
/// it; it then has one sink per requested format, each holding exactly that
/// task's records in dispatch order; and no task id has two groups.
pub proof fn lemma_task_sinks(s: State, t: isize)
    requires
        s.wf(),
        !s.finished(),
        s.per_task(),
    ensures
        s.has_task(t) <==> exists|k: int| 0 <= k < s.log().len() && s.log()[k].0 == t,
        s.has_task(t) ==> s.sinks_of(t).len() == s.formats().len(),
        forall|i: int|
            #![trigger s.sinks_of(t)[i]]
            s.has_task(t) && 0 <= i < s.sinks_of(t).len() ==> s.sinks_of(t)[i].format()
                == s.formats()[i] && s.sinks_of(t)[i].records() == records_for(s.log(), t),
        forall|j: int, k: int| 0 <= j < k < s.tids().len() ==> s.tids()[j] != s.tids()[k],
        s.global().len() == 0,
{
    lemma_records_for_nonempty(s.log(), t);
    assert(s.has_task(t) <==> records_for(s.log(), t).len() > 0);
    if s.has_task(t) {
        crate::state::lemma_index_of(s.tids(), t);
        let j = crate::state::index_of(s.tids(), t);
        assert(s.group_ok(s.groups()[j], records_for(s.log(), s.tids()[j])));
    }
}

/// A finished registry is empty: finishing it again hands out nothing.
pub proof fn lemma_finish_again(s: State)
    requires
        s.wf(),
        s.finished(),
    ensures
        finish_outputs(s).len() == 0,
{
    assert(finish_outputs(s) =~= Seq::<crate::state::OutputView>::empty());
}

} // verus!
