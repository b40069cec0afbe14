use vstd::prelude::*;
use crate::args::Format;
use crate::text::{decimal, decimal_of, push_all};

verus! {

/// A record as the sinks see it: its one-line text form and its JSON value.
pub struct Record {
    pub line: Vec<u8>,
    pub json: Vec<u8>,
}

pub struct RecordView {
    pub line: Seq<u8>,
    pub json: Seq<u8>,
}

impl View for Record {
    type V = RecordView;

    open spec fn view(&self) -> RecordView {
        RecordView { line: self.line@, json: self.json@ }
    }
}

/// Marker of a syscall entry or exit, recorded in raw mode.
#[derive(Debug, Clone, Copy, PartialEq, Eq, Structural)]
pub struct RawSyscall {
    pub tid: isize,
    pub entry: bool,
}

/// "{tid}: sycall(entry)" or "{tid}: sycall(exit)".
pub open spec fn raw_syscall_line(r: RawSyscall) -> Seq<u8> {
    decimal(r.tid as int)
        + seq![58u8, 32u8, 115u8, 121u8, 99u8, 97u8, 108u8, 108u8, 40u8]
        + (if r.entry {
        seq![101u8, 110u8, 116u8, 114u8, 121u8]
    } else {
        seq![101u8, 120u8, 105u8, 116u8]
    }) + seq![41u8]
}

/// {"tid":<tid>,"entry":<true|false>}
pub open spec fn raw_syscall_json(r: RawSyscall) -> Seq<u8> {
    seq![123u8, 34u8, 116u8, 105u8, 100u8, 34u8, 58u8] + decimal(r.tid as int) + seq![
        44u8,
        34u8,
        101u8,
        110u8,
        116u8,
        114u8,
        121u8,
        34u8,
        58u8,
    ] + (if r.entry {
        seq![116u8, 114u8, 117u8, 101u8]
    } else {
        seq![102u8, 97u8, 108u8, 115u8, 101u8]
    }) + seq![125u8]
}

impl RawSyscall {
    pub fn new(tid: isize, entry: bool) -> (r: RawSyscall)
        ensures
            r.tid == tid,
            r.entry == entry,
    {
        RawSyscall { tid, entry }
    }

    /// The text form of the marker.
    pub fn line(&self) -> (r: Vec<u8>)
        ensures
            r@ == raw_syscall_line(*self),
    {
        let mut r = decimal_of(self.tid);
        let sep: [u8; 9] = [58u8, 32u8, 115u8, 121u8, 99u8, 97u8, 108u8, 108u8, 40u8];
        push_all(&mut r, sep.as_slice());
        if self.entry {
            let w: [u8; 5] = [101u8, 110u8, 116u8, 114u8, 121u8];
            push_all(&mut r, w.as_slice());
        } else {
            let w: [u8; 4] = [101u8, 120u8, 105u8, 116u8];
            push_all(&mut r, w.as_slice());
        }
        r.push(41u8);
        r
    }

    /// The JSON object of the marker, with fields `tid` and `entry`.
    pub fn json(&self) -> (r: Vec<u8>)
        ensures
            r@ == raw_syscall_json(*self),
    {
        let mut r = vec![123u8, 34u8, 116u8, 105u8, 100u8, 34u8, 58u8];
        let d = decimal_of(self.tid);
        push_all(&mut r, d.as_slice());
        let k: [u8; 9] = [44u8, 34u8, 101u8, 110u8, 116u8, 114u8, 121u8, 34u8, 58u8];
        push_all(&mut r, k.as_slice());
        if self.entry {
            let w: [u8; 4] = [116u8, 114u8, 117u8, 101u8];
            push_all(&mut r, w.as_slice());
        } else {
            let w: [u8; 5] = [102u8, 97u8, 108u8, 115u8, 101u8];
            push_all(&mut r, w.as_slice());
        }
        r.push(125u8);
        r
    }

    pub open spec fn to_record_spec(self) -> RecordView {
        RecordView { line: raw_syscall_line(self), json: raw_syscall_json(self) }
    }

    /// The marker as a record: its text line and its JSON object.
    pub fn to_record(&self) -> (r: Record)
        ensures
            r@ == self.to_record_spec(),
    {
        Record { line: self.line(), json: self.json() }
    }
}

pub open spec fn lines_of(rs: Seq<RecordView>) -> Seq<Seq<u8>> {
    rs.map_values(|r: RecordView| r.line)
}

pub open spec fn values_of(rs: Seq<RecordView>) -> Seq<Seq<u8>> {
    rs.map_values(|r: RecordView| r.json)
}

/// Text output: each line followed by a newline.
pub open spec fn raw_text(lines: Seq<Seq<u8>>) -> Seq<u8>
    decreases lines.len(),
{
    if lines.len() == 0 {
        Seq::empty()
    } else {
        raw_text(lines.drop_last()) + lines.last().push(10u8)
    }
}

/// The values joined by commas.
pub open spec fn json_items(values: Seq<Seq<u8>>) -> Seq<u8>
    decreases values.len(),
{
    if values.len() == 0 {
        Seq::empty()
    } else if values.len() == 1 {
        values[0]
    } else {
        json_items(values.drop_last()) + seq![44u8] + values.last()
    }
}

/// A complete JSON document: one array holding the values.
pub open spec fn json_doc(values: Seq<Seq<u8>>) -> Seq<u8> {
    seq![91u8] + json_items(values) + seq![93u8]
}

/// Where a sink stands in its life.
#[derive(Debug, Clone, Copy, PartialEq, Eq, Structural)]
pub enum Phase {
    Fresh,
    Open,
    Finished,
}

/// Sink state of the text format: one line per record.
#[derive(Clone, Copy)]
pub struct WriteRaw {
    phase: Phase,
    records: Ghost<Seq<RecordView>>,
}

impl WriteRaw {
    pub closed spec fn phase(self) -> Phase {
        self.phase
    }

    /// The records written so far.
    pub closed spec fn records(self) -> Seq<RecordView> {
        self.records@
    }

    pub closed spec fn wf(self) -> bool {
        self.phase == Phase::Fresh ==> self.records@.len() == 0
    }

    /// Everything the sink has emitted to its destination.
    pub open spec fn emitted(self) -> Seq<u8> {
        if self.phase() == Phase::Fresh {
            Seq::empty()
        } else {
            raw_text(lines_of(self.records()))
        }
    }

    pub fn new() -> (r: WriteRaw)
        ensures
            r.wf(),
            r.phase() == Phase::Fresh,
            r.records() == Seq::<RecordView>::empty(),
    {
        WriteRaw { phase: Phase::Fresh, records: Ghost(Seq::empty()) }
    }

    /// Opens the sink; the text format has no prologue.
    pub fn init(&mut self) -> (r: Vec<u8>)
        requires
            old(self).wf(),
            old(self).phase() == Phase::Fresh,
        ensures
            final(self).wf(),
            final(self).phase() == Phase::Open,
            final(self).records() == old(self).records(),
            r@ == Seq::<u8>::empty(),
            final(self).emitted() == old(self).emitted() + r@,
    {
        self.phase = Phase::Open;
        proof {
            assert(lines_of(self.records@) =~= Seq::<Seq<u8>>::empty());
        }
        Vec::new()
    }

    /// The record's line and a newline.
    pub fn write(&mut self, rec: &Record) -> (r: Vec<u8>)
        requires
            old(self).wf(),
            old(self).phase() == Phase::Open,
        ensures
            final(self).wf(),
            final(self).phase() == Phase::Open,
            final(self).records() == old(self).records().push(rec@),
            r@ == rec.line@.push(10u8),
            final(self).emitted() == old(self).emitted() + r@,
    {
        let ghost prev = self.records@;
        self.records = Ghost(prev.push(rec@));
        let mut r = Vec::new();
        push_all(&mut r, rec.line.as_slice());
        r.push(10u8);
        proof {
            let ls = lines_of(self.records@);
            assert(ls.drop_last() =~= lines_of(prev));
            assert(ls.last() == rec.line@);
        }
        r
    }

    /// Ends the sink; the text format has no epilogue, the caller flushes.
    pub fn finish(&mut self) -> (r: Vec<u8>)
        requires
            old(self).wf(),
            old(self).phase() == Phase::Open,
        ensures
            final(self).wf(),
            final(self).phase() == Phase::Finished,
            final(self).records() == old(self).records(),
            r@ == Seq::<u8>::empty(),
            final(self).emitted() == old(self).emitted() + r@,
    {
        self.phase = Phase::Finished;
        Vec::new()
    }
}

/// Sink state of the JSON format: one array, one element per record.
#[derive(Clone, Copy)]
pub struct WriteJson {
    phase: Phase,
    empty: bool,
    records: Ghost<Seq<RecordView>>,
}

impl WriteJson {
    pub closed spec fn phase(self) -> Phase {
        self.phase
    }

    /// The records written so far.
    pub closed spec fn records(self) -> Seq<RecordView> {
        self.records@
    }

    pub closed spec fn wf(self) -> bool {
        &&& self.empty <==> self.records@.len() == 0
        &&& self.phase == Phase::Fresh ==> self.records@.len() == 0
    }

    /// Everything the sink has emitted to its destination.
    pub open spec fn emitted(self) -> Seq<u8> {
        match self.phase() {
            Phase::Fresh => Seq::empty(),
            Phase::Open => seq![91u8] + json_items(values_of(self.records())),
            Phase::Finished => json_doc(values_of(self.records())),
        }
    }

    pub fn new() -> (r: WriteJson)
        ensures
            r.wf(),
            r.phase() == Phase::Fresh,
            r.records() == Seq::<RecordView>::empty(),
    {
        WriteJson { phase: Phase::Fresh, empty: true, records: Ghost(Seq::empty()) }
    }

    /// Opens the array.
    pub fn init(&mut self) -> (r: Vec<u8>)
        requires
            old(self).wf(),
            old(self).phase() == Phase::Fresh,
        ensures
            final(self).wf(),
            final(self).phase() == Phase::Open,
            final(self).records() == old(self).records(),
            r@ == seq![91u8],
            final(self).emitted() == old(self).emitted() + r@,
    {
        self.phase = Phase::Open;
        proof {
            assert(values_of(self.records@) =~= Seq::<Seq<u8>>::empty());
            assert(seq![91u8] + Seq::<u8>::empty() =~= seq![91u8]);
        }
        vec![91u8]
    }

    /// One array element, preceded by a comma unless it is the first.
    pub fn write(&mut self, rec: &Record) -> (r: Vec<u8>)
        requires
            old(self).wf(),
            old(self).phase() == Phase::Open,
        ensures
            final(self).wf(),
            final(self).phase() == Phase::Open,
            final(self).records() == old(self).records().push(rec@),
            r@ == if old(self).records().len() == 0 {
                rec.json@
            } else {
                seq![44u8] + rec.json@
            },
            final(self).emitted() == old(self).emitted() + r@,
    {
        let ghost prev = self.records@;
        self.records = Ghost(prev.push(rec@));
        let mut r = Vec::new();
        if !self.empty {
            r.push(44u8);
        }
        push_all(&mut r, rec.json.as_slice());
        self.empty = false;
        proof {
            let vs = values_of(self.records@);
            assert(vs.drop_last() =~= values_of(prev));
            assert(vs.last() == rec.json@);
            if prev.len() == 0 {
                assert(vs.len() == 1);
                assert(json_items(values_of(prev)) =~= Seq::<u8>::empty());
                assert(r@ =~= rec.json@);
                assert(seq![91u8] + json_items(vs) =~= seq![91u8] + json_items(values_of(prev)) + r@);
            } else {
                assert(r@ =~= seq![44u8] + rec.json@);
                assert(seq![91u8] + json_items(vs) =~= seq![91u8] + json_items(values_of(prev)) + r@);
            }
        }
        r
    }

    /// Closes the array, completing the document.
    pub fn finish(&mut self) -> (r: Vec<u8>)
        requires
            old(self).wf(),
            old(self).phase() == Phase::Open,
        ensures
            final(self).wf(),
            final(self).phase() == Phase::Finished,
            final(self).records() == old(self).records(),
            r@ == seq![93u8],
            final(self).emitted() == old(self).emitted() + r@,
    {
        self.phase = Phase::Finished;
        vec![93u8]
    }
}

/// What finishing a sink emits: nothing for text, the closing bracket for JSON.
pub open spec fn closing(s: Sink) -> Seq<u8> {
    match s {
        Sink::Raw(_) => Seq::empty(),
        Sink::Json(_) => seq![93u8],
    }
}

/// A sink of either format.
#[derive(Clone, Copy)]
pub enum Sink {
    Raw(WriteRaw),
    Json(WriteJson),
}

impl Sink {
    pub open spec fn format(self) -> Format {
        match self {
            Sink::Raw(_) => Format::Raw,
            Sink::Json(_) => Format::Json,
        }
    }

    pub open spec fn phase(self) -> Phase {
        match self {
            Sink::Raw(w) => w.phase(),
            Sink::Json(w) => w.phase(),
        }
    }

    pub open spec fn records(self) -> Seq<RecordView> {
        match self {
            Sink::Raw(w) => w.records(),
            Sink::Json(w) => w.records(),
        }
    }

    pub open spec fn wf(self) -> bool {
        match self {
            Sink::Raw(w) => w.wf(),
            Sink::Json(w) => w.wf(),
        }
    }

    /// Everything the sink has emitted to its destination.
    pub open spec fn emitted(self) -> Seq<u8> {
        match self {
            Sink::Raw(w) => w.emitted(),
            Sink::Json(w) => w.emitted(),
        }
    }

    pub fn format_of(&self) -> (r: Format)
        ensures
            r == self.format(),
    {
        match self {
            Sink::Raw(_) => Format::Raw,
            Sink::Json(_) => Format::Json,
        }
    }

    pub fn new(format: Format) -> (r: Sink)
        ensures
            r.wf(),
            r.format() == format,
            r.phase() == Phase::Fresh,
            r.records() == Seq::<RecordView>::empty(),
    {
        match format {
            Format::Raw => Sink::Raw(WriteRaw::new()),
            Format::Json => Sink::Json(WriteJson::new()),
        }
    }

    pub fn init(&mut self) -> (r: Vec<u8>)
        requires
            old(self).wf(),
            old(self).phase() == Phase::Fresh,
        ensures
            final(self).wf(),
            final(self).format() == old(self).format(),
            final(self).phase() == Phase::Open,
            final(self).records() == old(self).records(),
            final(self).emitted() == old(self).emitted() + r@,
    {
        match *self {
            Sink::Raw(w0) => {
                let mut w = w0;
                let r = w.init();
                *self = Sink::Raw(w);
                r
            },
            Sink::Json(w0) => {
                let mut w = w0;
                let r = w.init();
                *self = Sink::Json(w);
                r
            },
        }
    }

    pub fn write(&mut self, rec: &Record) -> (r: Vec<u8>)
        requires
            old(self).wf(),
            old(self).phase() == Phase::Open,
        ensures
            final(self).wf(),
            final(self).format() == old(self).format(),
            final(self).phase() == Phase::Open,
            final(self).records() == old(self).records().push(rec@),
            final(self).emitted() == old(self).emitted() + r@,
    {
        match *self {
            Sink::Raw(w0) => {
                let mut w = w0;
                let r = w.write(rec);
                *self = Sink::Raw(w);
                r
            },
            Sink::Json(w0) => {
                let mut w = w0;
                let r = w.write(rec);
                *self = Sink::Json(w);
                r
            },
        }
    }

    pub fn finish(&mut self) -> (r: Vec<u8>)
        requires
            old(self).wf(),
            old(self).phase() == Phase::Open,
        ensures
            final(self).wf(),
            final(self).format() == old(self).format(),
            final(self).phase() == Phase::Finished,
            final(self).records() == old(self).records(),
            final(self).emitted() == old(self).emitted() + r@,
            r@ == closing(*old(self)),
    {
        match *self {
            Sink::Raw(w0) => {
                let mut w = w0;
                let r = w.finish();
                *self = Sink::Raw(w);
                r
            },
            Sink::Json(w0) => {
                let mut w = w0;
                let r = w.finish();
                *self = Sink::Json(w);
                r
            },
        }
    }
}

} // verus!
