use vstd::prelude::*;
use vstd::pervasive::VecAdditionalExecFns;
use crate::args::{extension_of, Error, Format};
use crate::text::{decimal, decimal_of, push_all};
use crate::writers::{closing, Phase, RawSyscall, Record, RecordView, Sink};

verus! {

/// Where a sink's bytes go.
pub enum Dest {
    Stdout,
    File(Vec<u8>),
}

pub enum DestView {
    Stdout,
    File(Seq<u8>),
}

impl View for Dest {
    type V = DestView;

    open spec fn view(&self) -> DestView {
        match self {
            Dest::Stdout => DestView::Stdout,
            Dest::File(p) => DestView::File(p@),
        }
    }
}

/// Names one sink: the task it belongs to (none for a global sink) and its format.
#[derive(Debug, Clone, Copy, PartialEq, Eq, Structural, Hash)]
pub struct Target {
    pub tid: Option<isize>,
    pub format: Format,
}

/// Bytes for one sink. When `open` is set, the destination is to be created
/// (truncating what is there) before the bytes are written.
pub struct Output {
    pub target: Target,
    pub open: Option<Dest>,
    pub bytes: Vec<u8>,
}

pub struct OutputView {
    pub target: Target,
    pub open: Option<DestView>,
    pub bytes: Seq<u8>,
}

impl View for Output {
    type V = OutputView;

    open spec fn view(&self) -> OutputView {
        OutputView {
            target: self.target,
            open: match self.open {
                Some(d) => Some(d@),
                None => None,
            },
            bytes: self.bytes@,
        }
    }
}

/// "." followed by the format's extension.
pub open spec fn dotted(f: Format) -> Seq<u8> {
    seq![46u8] + extension_of(f)
}

/// The path unchanged if it already ends in the format's extension, else with it appended.
pub open spec fn with_extension(p: Seq<u8>, f: Format) -> Seq<u8> {
    let e = dotted(f);
    if p.len() >= e.len() && p.subrange(p.len() - e.len(), p.len() as int) == e {
        p
    } else {
        p + e
    }
}

/// Destination of a global sink.
pub open spec fn global_dest(output: Option<Seq<u8>>, f: Format) -> DestView {
    match output {
        None => DestView::Stdout,
        Some(p) => DestView::File(with_extension(p, f)),
    }
}

/// Destination of a task's sink: "<path>_<tid>.<ext>".
pub open spec fn task_dest(p: Seq<u8>, tid: isize, f: Format) -> DestView {
    DestView::File(p + seq![95u8] + decimal(tid as int) + dotted(f))
}

/// The formats in order of first occurrence, each once.
pub open spec fn distinct(s: Seq<Format>) -> Seq<Format>
    decreases s.len(),
{
    if s.len() == 0 {
        Seq::empty()
    } else {
        let d = distinct(s.drop_last());
        if d.contains(s.last()) {
            d
        } else {
            d.push(s.last())
        }
    }
}

fn ends_with(p: &[u8], e: &[u8]) -> (r: bool)
    ensures
        r == (p@.len() >= e@.len() && p@.subrange(p@.len() - e@.len(), p@.len() as int) == e@),
{
    if p.len() < e.len() {
        return false;
    }
    let off = p.len() - e.len();
    let mut i: usize = 0;
    while i < e.len()
        invariant
            off + e@.len() == p@.len(),
            p@.len() == p.len(),
            i <= e@.len(),
            forall|k: int| 0 <= k < i ==> p@[off + k] == e@[k],
        decreases e@.len() - i,
    {
        if p[off + i] != e[i] {
            assert(p@.subrange(off as int, p@.len() as int)[i as int] != e@[i as int]);
            return false;
        }
        i = i + 1;
    }
    assert(p@.subrange(off as int, p@.len() as int) =~= e@);
    true
}

fn dotted_of(f: Format) -> (r: Vec<u8>)
    ensures
        r@ == dotted(f),
{
    let mut r = vec![46u8];
    let e = f.extension();
    push_all(&mut r, e.as_slice());
    r
}

fn copy_bytes(b: &Vec<u8>) -> (r: Vec<u8>)
    ensures
        r@ == b@,
{
    let mut r = Vec::new();
    push_all(&mut r, b.as_slice());
    r
}

/// Resolves the destination of a global sink.
pub fn global_dest_of(output: &Option<Vec<u8>>, f: Format) -> (r: Dest)
    ensures
        r@ == global_dest(
            match output {
                Some(p) => Some(p@),
                None => None,
            },
            f,
        ),
{
    match output {
        None => Dest::Stdout,
        Some(p) => {
            let e = dotted_of(f);
            if ends_with(p.as_slice(), e.as_slice()) {
                Dest::File(copy_bytes(p))
            } else {
                let mut q = copy_bytes(p);
                push_all(&mut q, e.as_slice());
                Dest::File(q)
            }
        },
    }
}

/// Derives the destination of a task's sink from the output path.
pub fn task_dest_of(p: &Vec<u8>, tid: isize, f: Format) -> (r: Dest)
    ensures
        r@ == task_dest(p@, tid, f),
{
    let mut q = copy_bytes(p);
    q.push(95u8);
    let d = decimal_of(tid);
    push_all(&mut q, d.as_slice());
    let e = dotted_of(f);
    push_all(&mut q, e.as_slice());
    proof {
        assert(q@ =~= p@ + seq![95u8] + decimal(tid as int) + dotted(f));
    }
    Dest::File(q)
}

/// Keeps the first occurrence of each format.
pub fn distinct_formats(fs: &Vec<Format>) -> (r: Vec<Format>)
    ensures
        r@ == distinct(fs@),
        r@.no_duplicates(),
{
    let mut r: Vec<Format> = Vec::new();
    let mut i: usize = 0;
    while i < fs.len()
        invariant
            i <= fs@.len(),
            r@ == distinct(fs@.subrange(0, i as int)),
            r@.no_duplicates(),
        decreases fs@.len() - i,
    {
        let f = fs[i];
        let mut seen = false;
        let mut k: usize = 0;
        while k < r.len()
            invariant
                k <= r@.len(),
                seen == (exists|m: int| 0 <= m < k && r@[m] == f),
            decreases r@.len() - k,
        {
            if r[k] == f {
                seen = true;
            }
            k = k + 1;
        }
        let ghost prev = r@;
        assert(fs@.subrange(0, i + 1).drop_last() =~= fs@.subrange(0, i as int));
        assert(fs@.subrange(0, i + 1).last() == f);
        if !seen {
            r.push(f);
            assert(!prev.contains(f));
            assert forall|a: int, b: int| 0 <= a < b < r@.len() implies r@[a] != r@[b] by {
                if b == r@.len() - 1 {
                    assert(prev[a] == r@[a]);
                }
            }
        } else {
            assert(prev.contains(f));
        }
        i = i + 1;
    }
    assert(fs@.subrange(0, fs@.len() as int) =~= fs@);
    r
}

pub open spec fn opt_view(o: Option<Vec<u8>>) -> Option<Seq<u8>> {
    match o {
        Some(p) => Some(p@),
        None => None,
    }
}

/// All records in the order they were dispatched.
pub open spec fn all_records(log: Seq<(isize, RecordView)>) -> Seq<RecordView> {
    log.map_values(|e: (isize, RecordView)| e.1)
}

/// The records dispatched for one task, in order.
pub open spec fn records_for(log: Seq<(isize, RecordView)>, t: isize) -> Seq<RecordView>
    decreases log.len(),
{
    if log.len() == 0 {
        Seq::empty()
    } else if log.last().0 == t {
        records_for(log.drop_last(), t).push(log.last().1)
    } else {
        records_for(log.drop_last(), t)
    }
}

/// Position of a task id, searching from the end; -1 when absent.
pub open spec fn index_of(tids: Seq<isize>, t: isize) -> int
    decreases tids.len(),
{
    if tids.len() == 0 {
        -1
    } else if tids.last() == t {
        tids.len() - 1
    } else {
        index_of(tids.drop_last(), t)
    }
}

pub open spec fn tids_of(tasks: Seq<TaskSinks>) -> Seq<isize> {
    tasks.map_values(|t: TaskSinks| t.tid)
}

pub open spec fn groups_of(tasks: Seq<TaskSinks>) -> Seq<Seq<Sink>> {
    tasks.map_values(|t: TaskSinks| t.sinks@)
}

/// The sinks of one task, all of the same task id.
pub struct TaskSinks {
    pub tid: isize,
    pub sinks: Vec<Sink>,
}

/// The sink registry and dispatcher. In global mode it holds one sink per
/// format; in per-task mode one group of sinks per task id, created on the
/// first record of that task.
pub struct State {
    formats: Vec<Format>,
    output: Option<Vec<u8>>,
    per_task: bool,
    finished: bool,
    global: Vec<Sink>,
    tasks: Vec<TaskSinks>,
    log: Ghost<Seq<(isize, RecordView)>>,
}

impl State {
    /// The requested formats, each once.
    pub closed spec fn formats(self) -> Seq<Format> {
        self.formats@
    }

    pub closed spec fn output(self) -> Option<Seq<u8>> {
        opt_view(self.output)
    }

    pub closed spec fn per_task(self) -> bool {
        self.per_task
    }

    pub closed spec fn finished(self) -> bool {
        self.finished
    }

    /// The global sinks, parallel to `formats`.
    pub closed spec fn global(self) -> Seq<Sink> {
        self.global@
    }

    /// The task ids that have sinks, in order of first record.
    pub closed spec fn tids(self) -> Seq<isize> {
        tids_of(self.tasks@)
    }

    /// The sink groups, parallel to `tids`.
    pub closed spec fn groups(self) -> Seq<Seq<Sink>> {
        groups_of(self.tasks@)
    }

    /// Every record dispatched so far, with its task id.
    pub closed spec fn log(self) -> Seq<(isize, RecordView)> {
        self.log@
    }

    pub open spec fn has_task(self, t: isize) -> bool {
        index_of(self.tids(), t) >= 0
    }

    /// The sinks of a task; empty when it has none.
    pub open spec fn sinks_of(self, t: isize) -> Seq<Sink> {
        if self.has_task(t) {
            self.groups()[index_of(self.tids(), t)]
        } else {
            Seq::empty()
        }
    }

    /// One open sink per format, in format order, each holding `recs`.
    pub open spec fn group_ok(self, sinks: Seq<Sink>, recs: Seq<RecordView>) -> bool {
        &&& sinks.len() == self.formats().len()
        &&& forall|i: int|
            #![trigger sinks[i]]
            0 <= i < sinks.len() ==> {
                &&& sinks[i].wf()
                &&& sinks[i].format() == self.formats()[i]
                &&& sinks[i].phase() == Phase::Open
                &&& sinks[i].records() == recs
            }
    }

    pub open spec fn wf(self) -> bool {
        &&& self.formats().no_duplicates()
        &&& self.tids().len() == self.groups().len()
        &&& self.per_task() ==> self.output() is Some && self.global().len() == 0
        &&& !self.per_task() ==> self.tids().len() == 0
        &&& self.finished() ==> self.global().len() == 0 && self.tids().len() == 0
        &&& !self.finished() && !self.per_task() ==> self.group_ok(
            self.global(),
            all_records(self.log()),
        )
        &&& !self.finished() && self.per_task() ==> {
            &&& forall|j: int, k: int|
                0 <= j < k < self.tids().len() ==> self.tids()[j] != self.tids()[k]
            &&& forall|j: int|
                #![trigger self.groups()[j]]
                0 <= j < self.groups().len() ==> self.group_ok(
                    self.groups()[j],
                    records_for(self.log(), self.tids()[j]),
                )
            &&& forall|t: isize|
                #![trigger records_for(self.log(), t)]
                self.has_task(t) <==> records_for(self.log(), t).len() > 0
        }
    }

    /// Sets up the registry. In global mode every sink is created and
    /// opened now, and the returned outputs create their destinations.
    pub fn new(formats: &Vec<Format>, output: Option<Vec<u8>>, output_is_dir: bool, per_task: bool)
        -> (r: Result<(State, Vec<Output>), Error>)
        ensures
            (per_task && output is None) ==> r == Err::<(State, Vec<Output>), Error>(
                Error::Configuration,
            ),
            (!per_task && output is Some && output_is_dir) ==> r == Err::<
                (State, Vec<Output>),
                Error,
            >(Error::Destination),
            (per_task ==> output is Some) && (!per_task && output is Some ==> !output_is_dir)
                ==> r is Ok,
            match r {
                Ok((s, outs)) => {
                    &&& s.wf()
                    &&& s.formats() == distinct(formats@)
                    &&& s.output() == opt_view(output)
                    &&& s.per_task() == per_task
                    &&& !s.finished()
                    &&& s.log().len() == 0
                    &&& s.tids().len() == 0
                    &&& per_task ==> outs@.len() == 0
                    &&& !per_task ==> outs@.len() == s.formats().len()
                    &&& forall|i: int|
                        #![trigger outs@[i]]
                        !per_task && 0 <= i < outs@.len() ==> outs@[i]@ == (OutputView {
                            target: Target { tid: None, format: s.formats()[i] },
                            open: Some(global_dest(s.output(), s.formats()[i])),
                            bytes: s.global()[i].emitted(),
                        })
                },
                Err(_) => true,
            },
    {
        if per_task && output.is_none() {
            return Err(Error::Configuration);
        }
        if !per_task && output.is_some() && output_is_dir {
            return Err(Error::Destination);
        }
        let fs = distinct_formats(formats);
        let mut global: Vec<Sink> = Vec::new();
        let mut outs: Vec<Output> = Vec::new();
        if !per_task {
            let mut i: usize = 0;
            while i < fs.len()
                invariant
                    i <= fs@.len(),
                    global@.len() == i,
                    outs@.len() == i,
                    forall|k: int|
                        #![trigger global@[k]]
                        0 <= k < i ==> {
                            &&& global@[k].wf()
                            &&& global@[k].format() == fs@[k]
                            &&& global@[k].phase() == Phase::Open
                            &&& global@[k].records() == Seq::<RecordView>::empty()
                        },
                    forall|k: int|
                        #![trigger outs@[k]]
                        0 <= k < i ==> outs@[k]@ == (OutputView {
                            target: Target { tid: None, format: fs@[k] },
                            open: Some(global_dest(opt_view(output), fs@[k])),
                            bytes: global@[k].emitted(),
                        }),
                decreases fs@.len() - i,
            {
                let f = fs[i];
                let mut s = Sink::new(f);
                let b = s.init();
                assert(s.emitted() =~= b@);
                let d = global_dest_of(&output, f);
                global.push(s);
                outs.push(Output { target: Target { tid: None, format: f }, open: Some(d), bytes: b });
                i = i + 1;
            }
        }
        let st = State {
            formats: fs,
            output,
            per_task,
            finished: false,
            global,
            tasks: Vec::new(),
            log: Ghost(Seq::empty()),
        };
        proof {
            assert(all_records(st.log@) =~= Seq::<RecordView>::empty());
            assert(st.tids() =~= Seq::<isize>::empty());
            assert(st.groups() =~= Seq::<Seq<Sink>>::empty());
            assert forall|t: isize| #[trigger] records_for(st.log@, t).len() == 0 by {}
        }
        Ok((st, outs))
    }
}

pub(crate) proof fn lemma_index_of(tids: Seq<isize>, t: isize)
    ensures
        -1 <= index_of(tids, t) < tids.len(),
        index_of(tids, t) >= 0 ==> tids[index_of(tids, t)] == t,
        index_of(tids, t) == -1 ==> forall|j: int| 0 <= j < tids.len() ==> tids[j] != t,
    decreases tids.len(),
{
    if tids.len() > 0 {
        lemma_index_of(tids.drop_last(), t);
        if tids.last() != t {
            assert forall|j: int| 0 <= j < tids.len() - 1 implies tids[j] == tids.drop_last()[j] by {}
        }
    }
}

proof fn lemma_index_of_push(tids: Seq<isize>, t: isize, u: isize)
    ensures
        index_of(tids.push(t), t) == tids.len(),
        u != t ==> index_of(tids.push(t), u) == index_of(tids, u),
{
    assert(tids.push(t).drop_last() =~= tids);
}

proof fn lemma_records_for_push(log: Seq<(isize, RecordView)>, t: isize, rec: RecordView, u: isize)
    ensures
        records_for(log.push((t, rec)), t) == records_for(log, t).push(rec),
        u != t ==> records_for(log.push((t, rec)), u) == records_for(log, u),
{
    assert(log.push((t, rec)).drop_last() =~= log);
}

/// Writes one record to every sink of a group, returning each sink's bytes.
fn write_group(sinks: &mut Vec<Sink>, rec: &Record) -> (r: Vec<Vec<u8>>)
    requires
        forall|i: int|
            #![trigger old(sinks)@[i]]
            0 <= i < old(sinks)@.len() ==> old(sinks)@[i].wf() && old(sinks)@[i].phase()
                == Phase::Open,
    ensures
        final(sinks)@.len() == old(sinks)@.len(),
        r@.len() == old(sinks)@.len(),
        forall|i: int|
            #![trigger final(sinks)@[i]]
            0 <= i < old(sinks)@.len() ==> {
                &&& final(sinks)@[i].wf()
                &&& final(sinks)@[i].format() == old(sinks)@[i].format()
                &&& final(sinks)@[i].phase() == Phase::Open
                &&& final(sinks)@[i].records() == old(sinks)@[i].records().push(rec@)
                &&& final(sinks)@[i].emitted() == old(sinks)@[i].emitted() + r@[i]@
            },
{
    let mut r: Vec<Vec<u8>> = Vec::new();
    let mut i: usize = 0;
    while i < sinks.len()
        invariant
            i <= sinks@.len(),
            sinks@.len() == old(sinks)@.len(),
            r@.len() == i,
            forall|k: int|
                #![trigger sinks@[k]]
                i <= k < sinks@.len() ==> sinks@[k] == old(sinks)@[k],
            forall|k: int|
                #![trigger old(sinks)@[k]]
                0 <= k < old(sinks)@.len() ==> old(sinks)@[k].wf() && old(sinks)@[k].phase()
                    == Phase::Open,
            forall|k: int|
                #![trigger sinks@[k]]
                0 <= k < i ==> {
                    &&& sinks@[k].wf()
                    &&& sinks@[k].format() == old(sinks)@[k].format()
                    &&& sinks@[k].phase() == Phase::Open
                    &&& sinks@[k].records() == old(sinks)@[k].records().push(rec@)
                    &&& sinks@[k].emitted() == old(sinks)@[k].emitted() + r@[k]@
                },
        decreases sinks@.len() - i,
    {
        let mut s = sinks[i];
        assert(s == old(sinks)@[i as int]);
        let b = s.write(rec);
        sinks.set(i, s);
        r.push(b);
        i = i + 1;
    }
    r
}

impl State {
    /// Position of a task's group, searching from the end.
    fn find_task(&self, tid: isize) -> (r: Option<usize>)
        ensures
            match r {
                Some(j) => index_of(self.tids(), tid) == j as int,
                None => index_of(self.tids(), tid) == -1,
            },
    {
        let mut i: usize = self.tasks.len();
        assert(self.tids().subrange(0, i as int) =~= self.tids());
        while i > 0
            invariant
                i <= self.tasks@.len(),
                index_of(self.tids(), tid) == index_of(self.tids().subrange(0, i as int), tid),
            decreases i,
        {
            let ghost sub = self.tids().subrange(0, i as int);
            assert(sub.last() == self.tasks@[i - 1].tid);
            if self.tasks[i - 1].tid == tid {
                return Some(i - 1);
            }
            assert(sub.drop_last() =~= self.tids().subrange(0, i - 1));
            i = i - 1;
        }
        None
    }
}

pub open spec fn outputs_view(outs: Seq<Output>) -> Seq<OutputView> {
    outs.map_values(|o: Output| o@)
}

/// What one dispatch of `rec` for task `tid` does, from `pre` to `post`,
/// with `outs` the bytes handed out, one entry per format.
pub open spec fn dispatched(
    pre: State,
    post: State,
    tid: isize,
    rec: RecordView,
    outs: Seq<OutputView>,
) -> bool {
    &&& post.wf()
    &&& post.formats() == pre.formats()
    &&& post.output() == pre.output()
    &&& post.per_task() == pre.per_task()
    &&& !post.finished()
    &&& post.log() == pre.log().push((tid, rec))
    &&& outs.len() == pre.formats().len()
    &&& !pre.per_task() ==> {
        &&& post.global().len() == pre.global().len()
        &&& forall|i: int|
            #![trigger outs[i]]
            0 <= i < outs.len() ==> {
                &&& outs[i].target == Target { tid: None, format: pre.formats()[i] }
                &&& outs[i].open is None
                &&& post.global()[i].emitted() == pre.global()[i].emitted() + outs[i].bytes
            }
    }
    &&& pre.per_task() ==> {
        &&& post.has_task(tid)
        &&& post.tids().len() == pre.tids().len() + if pre.has_task(tid) {
            0int
        } else {
            1int
        }
        &&& forall|t: isize| #![trigger post.sinks_of(t)] t != tid ==> post.sinks_of(t) == pre.sinks_of(t)
        &&& forall|i: int|
            #![trigger outs[i]]
            0 <= i < outs.len() ==> {
                &&& outs[i].target == Target { tid: Some(tid), format: pre.formats()[i] }
                &&& outs[i].open == if pre.has_task(tid) {
                    None
                } else {
                    Some(task_dest(pre.output().unwrap(), tid, pre.formats()[i]))
                }
                &&& post.sinks_of(tid)[i].emitted() == (if pre.has_task(tid) {
                    pre.sinks_of(tid)[i].emitted()
                } else {
                    Seq::empty()
                }) + outs[i].bytes
            }
    }
}

/// One output per format: for sink `i`, `heads[i]` (if present) then `deltas[i]`;
/// with `path`, each also creates the task's destination.
fn make_outputs(
    formats: &Vec<Format>,
    task: Option<isize>,
    path: Option<&Vec<u8>>,
    heads: &Vec<Vec<u8>>,
    deltas: &Vec<Vec<u8>>,
) -> (r: Vec<Output>)
    requires
        deltas@.len() == formats@.len(),
        path is Some ==> task is Some,
    ensures
        r@.len() == formats@.len(),
        forall|i: int|
            #![trigger r@[i]]
            0 <= i < formats@.len() ==> r@[i]@ == (OutputView {
                target: Target { tid: task, format: formats@[i] },
                open: match path {
                    Some(p) => Some(task_dest(p@, task.unwrap(), formats@[i])),
                    None => None,
                },
                bytes: (if i < heads@.len() {
                    heads@[i]@
                } else {
                    Seq::empty()
                }) + deltas@[i]@,
            }),
{
    let mut r: Vec<Output> = Vec::new();
    let mut i: usize = 0;
    while i < formats.len()
        invariant
            i <= formats@.len(),
            deltas@.len() == formats@.len(),
            path is Some ==> task is Some,
            r@.len() == i,
            forall|k: int|
                #![trigger r@[k]]
                0 <= k < i ==> r@[k]@ == (OutputView {
                    target: Target { tid: task, format: formats@[k] },
                    open: match path {
                        Some(p) => Some(task_dest(p@, task.unwrap(), formats@[k])),
                        None => None,
                    },
                    bytes: (if k < heads@.len() {
                        heads@[k]@
                    } else {
                        Seq::empty()
                    }) + deltas@[k]@,
                }),
        decreases formats@.len() - i,
    {
        let f = formats[i];
        let mut bytes: Vec<u8> = Vec::new();
        if i < heads.len() {
            push_all(&mut bytes, heads[i].as_slice());
        }
        push_all(&mut bytes, deltas[i].as_slice());
        let open = match path {
            Some(p) => Some(task_dest_of(p, task.unwrap(), f)),
            None => None,
        };
        r.push(Output { target: Target { tid: task, format: f }, open, bytes });
        i = i + 1;
    }
    r
}

impl State {
    fn dispatch_global(&mut self, tid: isize, rec: &Record) -> (r: Vec<Output>)
        requires
            old(self).wf(),
            !old(self).finished(),
            !old(self).per_task(),
        ensures
            dispatched(*old(self), *final(self), tid, rec@, outputs_view(r@)),
    {
        let mut g: Vec<Sink> = Vec::new();
        std::mem::swap(&mut self.global, &mut g);
        let deltas = write_group(&mut g, rec);
        std::mem::swap(&mut self.global, &mut g);
        let ghost prev = self.log@;
        self.log = Ghost(prev.push((tid, rec@)));
        let heads: Vec<Vec<u8>> = Vec::new();
        let r = make_outputs(&self.formats, None, None, &heads, &deltas);
        proof {
            assert(all_records(self.log@) =~= all_records(prev).push(rec@));
            assert forall|i: int| #![trigger r@[i]] 0 <= i < r@.len() implies r@[i]@.bytes
                == deltas@[i]@ by {
                assert(Seq::<u8>::empty() + deltas@[i]@ =~= deltas@[i]@);
            }
            assert(self.tids() =~= Seq::<isize>::empty());
        }
        r
    }

    fn dispatch_known(&mut self, j: usize, tid: isize, rec: &Record) -> (r: Vec<Output>)
        requires
            old(self).wf(),
            !old(self).finished(),
            old(self).per_task(),
            index_of(old(self).tids(), tid) == j as int,
            j < old(self).tids().len(),
        ensures
            dispatched(*old(self), *final(self), tid, rec@, outputs_view(r@)),
    {
        let ghost pre = *self;
        proof {
            lemma_index_of(pre.tids(), tid);
        }
        let mut ts = TaskSinks { tid, sinks: Vec::new() };
        self.tasks.set_and_swap(j, &mut ts);
        proof {
            assert(ts.sinks@ == pre.groups()[j as int]);
            assert(pre.group_ok(pre.groups()[j as int], records_for(pre.log(), pre.tids()[j as int])));
        }
        let deltas = write_group(&mut ts.sinks, rec);
        self.tasks.set_and_swap(j, &mut ts);
        let ghost prev = self.log@;
        self.log = Ghost(prev.push((tid, rec@)));
        let heads: Vec<Vec<u8>> = Vec::new();
        let r = make_outputs(&self.formats, Some(tid), None, &heads, &deltas);
        proof {
            assert(self.tids() =~= pre.tids());
            assert(self.groups() =~= pre.groups().update(j as int, self.tasks@[j as int].sinks@));
            assert forall|t: isize| #[trigger] records_for(self.log@, t) == (if t == tid {
                records_for(prev, t).push(rec@)
            } else {
                records_for(prev, t)
            }) by {
                lemma_records_for_push(prev, tid, rec@, t);
            }
            assert forall|k: int|
                #![trigger self.groups()[k]]
                0 <= k < self.groups().len() implies self.group_ok(
                self.groups()[k],
                records_for(self.log(), self.tids()[k]),
            ) by {
                if k != j {
                    assert(self.tids()[k] != tid);
                    assert(self.groups()[k] == pre.groups()[k]);
                    assert(pre.group_ok(pre.groups()[k], records_for(pre.log(), pre.tids()[k])));
                } else {
                    assert(pre.group_ok(pre.groups()[k], records_for(pre.log(), pre.tids()[k])));
                }
            }
            assert forall|t: isize| #[trigger]
                records_for(self.log(), t) == records_for(self.log(), t) implies (self.has_task(t)
                <==> records_for(self.log(), t).len() > 0) by {
                assert(pre.has_task(t) <==> records_for(pre.log(), t).len() > 0);
            }
            assert forall|i: int| #![trigger r@[i]] 0 <= i < r@.len() implies r@[i]@.bytes
                == deltas@[i]@ by {
                assert(Seq::<u8>::empty() + deltas@[i]@ =~= deltas@[i]@);
            }
            assert forall|t: isize| #![trigger self.sinks_of(t)] t != tid implies self.sinks_of(t)
                == pre.sinks_of(t) by {
                lemma_index_of(pre.tids(), t);
            }
        }
        r
    }
}

impl State {
    /// Creates and opens one sink per format; returns the sinks and their prologues.
    fn open_group(&self) -> (r: (Vec<Sink>, Vec<Vec<u8>>))
        ensures
            r.0@.len() == self.formats().len(),
            r.1@.len() == self.formats().len(),
            forall|i: int|
                #![trigger r.0@[i]]
                0 <= i < self.formats().len() ==> {
                    &&& r.0@[i].wf()
                    &&& r.0@[i].format() == self.formats()[i]
                    &&& r.0@[i].phase() == Phase::Open
                    &&& r.0@[i].records() == Seq::<RecordView>::empty()
                    &&& r.0@[i].emitted() == r.1@[i]@
                },
    {
        let mut g: Vec<Sink> = Vec::new();
        let mut heads: Vec<Vec<u8>> = Vec::new();
        let mut i: usize = 0;
        while i < self.formats.len()
            invariant
                i <= self.formats@.len(),
                g@.len() == i,
                heads@.len() == i,
                forall|k: int|
                    #![trigger g@[k]]
                    0 <= k < i ==> {
                        &&& g@[k].wf()
                        &&& g@[k].format() == self.formats@[k]
                        &&& g@[k].phase() == Phase::Open
                        &&& g@[k].records() == Seq::<RecordView>::empty()
                        &&& g@[k].emitted() == heads@[k]@
                    },
            decreases self.formats@.len() - i,
        {
            let mut s = Sink::new(self.formats[i]);
            let b = s.init();
            assert(s.emitted() =~= b@);
            g.push(s);
            heads.push(b);
            i = i + 1;
        }
        (g, heads)
    }

    fn dispatch_new(&mut self, tid: isize, rec: &Record) -> (r: Vec<Output>)
        requires
            old(self).wf(),
            !old(self).finished(),
            old(self).per_task(),
            index_of(old(self).tids(), tid) == -1,
        ensures
            dispatched(*old(self), *final(self), tid, rec@, outputs_view(r@)),
    {
        let ghost pre = *self;
        proof {
            lemma_index_of(pre.tids(), tid);
            assert(!pre.has_task(tid));
            assert(records_for(pre.log(), tid).len() == 0);
        }
        let (mut g, heads) = self.open_group();
        let deltas = write_group(&mut g, rec);
        let r = match &self.output {
            Some(p) => make_outputs(&self.formats, Some(tid), Some(p), &heads, &deltas),
            None => Vec::new(),
        };
        let ghost prev = self.log@;
        self.tasks.push(TaskSinks { tid, sinks: g });
        self.log = Ghost(prev.push((tid, rec@)));
        proof {
            lemma_index_of_push(pre.tids(), tid, tid);
            assert(self.tids() =~= pre.tids().push(tid));
            assert(self.groups() =~= pre.groups().push(g@));
            assert forall|t: isize| #[trigger] records_for(self.log@, t) == (if t == tid {
                records_for(prev, t).push(rec@)
            } else {
                records_for(prev, t)
            }) by {
                lemma_records_for_push(prev, tid, rec@, t);
            }
            assert(records_for(self.log@, tid) =~= Seq::<RecordView>::empty().push(rec@));
            assert forall|t: isize| t != tid implies index_of(self.tids(), t) == index_of(
                pre.tids(),
                t,
            ) by {
                lemma_index_of_push(pre.tids(), tid, t);
            }
            assert forall|k: int|
                #![trigger self.groups()[k]]
                0 <= k < self.groups().len() implies self.group_ok(
                self.groups()[k],
                records_for(self.log(), self.tids()[k]),
            ) by {
                if k < pre.groups().len() {
                    assert(self.tids()[k] != tid);
                    assert(self.groups()[k] == pre.groups()[k]);
                    assert(pre.group_ok(pre.groups()[k], records_for(pre.log(), pre.tids()[k])));
                }
            }
            assert forall|t: isize| #[trigger]
                records_for(self.log(), t) == records_for(self.log(), t) implies (self.has_task(t)
                <==> records_for(self.log(), t).len() > 0) by {
                assert(pre.has_task(t) <==> records_for(pre.log(), t).len() > 0);
            }
            assert forall|t: isize| #![trigger self.sinks_of(t)] t != tid implies self.sinks_of(t)
                == pre.sinks_of(t) by {
                lemma_index_of(pre.tids(), t);
            }
            assert forall|j: int, k: int|
                0 <= j < k < self.tids().len() implies self.tids()[j] != self.tids()[k] by {
                if k == pre.tids().len() {
                    assert(pre.tids()[j] != tid);
                }
            }
            assert forall|i: int| #![trigger r@[i]] 0 <= i < r@.len() implies r@[i]@.bytes
                == heads@[i]@ + deltas@[i]@ by {}
        }
        r
    }

    /// Routes one record of task `tid` to every sink it belongs to: all global
    /// sinks, or the task's own sinks, which are created on its first record.
    pub fn dispatch(&mut self, tid: isize, rec: &Record) -> (r: Vec<Output>)
        requires
            old(self).wf(),
            !old(self).finished(),
        ensures
            dispatched(*old(self), *final(self), tid, rec@, outputs_view(r@)),
    {
        if !self.per_task {
            self.dispatch_global(tid, rec)
        } else {
            match self.find_task(tid) {
                Some(j) => {
                    proof {
                        lemma_index_of(self.tids(), tid);
                    }
                    self.dispatch_known(j, tid, rec)
                },
                None => self.dispatch_new(tid, rec),
            }
        }
    }
}

/// The closing outputs of one group of sinks, in order.
pub open spec fn closing_outputs(tid: Option<isize>, sinks: Seq<Sink>) -> Seq<OutputView> {
    Seq::new(
        sinks.len(),
        |i: int|
            OutputView {
                target: Target { tid, format: sinks[i].format() },
                open: None,
                bytes: closing(sinks[i]),
            },
    )
}

/// The closing outputs of all task groups, in registry order.
pub open spec fn task_closing_outputs(tids: Seq<isize>, groups: Seq<Seq<Sink>>) -> Seq<OutputView>
    decreases tids.len(),
{
    if tids.len() == 0 || groups.len() == 0 {
        Seq::empty()
    } else {
        task_closing_outputs(tids.drop_last(), groups.drop_last()) + closing_outputs(
            Some(tids.last()),
            groups.last(),
        )
    }
}

/// What finishing a registry hands out: global sinks first, then each task's.
pub open spec fn finish_outputs(s: State) -> Seq<OutputView> {
    closing_outputs(None, s.global()) + task_closing_outputs(s.tids(), s.groups())
}

/// Finishes each sink of a group, appending its closing output.
fn finish_group(sinks: &Vec<Sink>, tid: Option<isize>, out: &mut Vec<Output>)
    requires
        forall|i: int|
            #![trigger sinks@[i]]
            0 <= i < sinks@.len() ==> sinks@[i].wf() && sinks@[i].phase() == Phase::Open,
    ensures
        outputs_view(final(out)@) == outputs_view(old(out)@) + closing_outputs(tid, sinks@),
{
    let mut i: usize = 0;
    while i < sinks.len()
        invariant
            i <= sinks@.len(),
            forall|k: int|
                #![trigger sinks@[k]]
                0 <= k < sinks@.len() ==> sinks@[k].wf() && sinks@[k].phase() == Phase::Open,
            outputs_view(out@) == outputs_view(old(out)@) + closing_outputs(
                tid,
                sinks@.subrange(0, i as int),
            ),
        decreases sinks@.len() - i,
    {
        let mut s = sinks[i];
        let b = s.finish();
        let ghost before = out@;
        out.push(Output { target: Target { tid, format: sinks[i].format_of() }, open: None, bytes: b });
        i = i + 1;
        assert(outputs_view(out@) =~= outputs_view(before).push(out@.last()@));
        assert(closing_outputs(tid, sinks@.subrange(0, i as int)) =~= closing_outputs(
            tid,
            sinks@.subrange(0, i - 1),
        ).push(out@.last()@));
    }
    assert(sinks@.subrange(0, sinks@.len() as int) =~= sinks@);
}

impl State {
    /// Finishes every sink of both registries and empties them. Finishing
    /// again hands out nothing.
    pub fn finish(&mut self) -> (r: Vec<Output>)
        requires
            old(self).wf(),
        ensures
            final(self).wf(),
            final(self).finished(),
            final(self).formats() == old(self).formats(),
            final(self).output() == old(self).output(),
            final(self).per_task() == old(self).per_task(),
            final(self).log() == old(self).log(),
            final(self).global().len() == 0,
            final(self).tids().len() == 0,
            outputs_view(r@) == finish_outputs(*old(self)),
    {
        let ghost pre = *self;
        let mut r: Vec<Output> = Vec::new();
        let mut g: Vec<Sink> = Vec::new();
        std::mem::swap(&mut self.global, &mut g);
        proof {
            if !pre.finished() && !pre.per_task() {
                assert(pre.group_ok(pre.global(), all_records(pre.log())));
            }
        }
        finish_group(&g, None, &mut r);
        let mut tasks: Vec<TaskSinks> = Vec::new();
        std::mem::swap(&mut self.tasks, &mut tasks);
        assert(outputs_view(r@) =~= closing_outputs(None, g@) + task_closing_outputs(
            tids_of(tasks@.subrange(0, 0)),
            groups_of(tasks@.subrange(0, 0)),
        ));
        let mut j: usize = 0;
        while j < tasks.len()
            invariant
                j <= tasks@.len(),
                tasks@ == pre.tasks@,
                g@ == pre.global(),
                pre.wf(),
                tasks@.len() > 0 ==> !pre.finished() && pre.per_task(),
                outputs_view(r@) == closing_outputs(None, g@) + task_closing_outputs(
                    tids_of(tasks@.subrange(0, j as int)),
                    groups_of(tasks@.subrange(0, j as int)),
                ),
            decreases tasks@.len() - j,
        {
            let ghost before = r@;
            proof {
                assert(pre.groups()[j as int] == tasks@[j as int].sinks@);
                assert(pre.group_ok(pre.groups()[j as int], records_for(pre.log(), pre.tids()[j as int])));
            }
            finish_group(&tasks[j].sinks, Some(tasks[j].tid), &mut r);
            proof {
                let sub = tasks@.subrange(0, j + 1);
                assert(tids_of(sub).drop_last() =~= tids_of(tasks@.subrange(0, j as int)));
                assert(groups_of(sub).drop_last() =~= groups_of(tasks@.subrange(0, j as int)));
                assert(tids_of(sub).last() == tasks@[j as int].tid);
                assert(groups_of(sub).last() == tasks@[j as int].sinks@);
            }
            j = j + 1;
        }
        assert(tasks@.subrange(0, tasks@.len() as int) =~= tasks@);
        self.finished = true;
        proof {
            assert(self.tids() =~= Seq::<isize>::empty());
            assert(self.groups() =~= Seq::<Seq<Sink>>::empty());
        }
        r
    }
}

impl State {
    /// Records a raw syscall marker.
    pub fn write_raw_sysno(&mut self, tid: isize, raw: &RawSyscall) -> (r: Vec<Output>)
        requires
            old(self).wf(),
            !old(self).finished(),
        ensures
            dispatched(*old(self), *final(self), tid, raw.to_record_spec(), outputs_view(r@)),
    {
        let rec = raw.to_record();
        self.dispatch(tid, &rec)
    }

    /// Records a decoded syscall.
    pub fn write_syscall(&mut self, tid: isize, sys: &Record) -> (r: Vec<Output>)
        requires
            old(self).wf(),
            !old(self).finished(),
        ensures
            dispatched(*old(self), *final(self), tid, sys@, outputs_view(r@)),
    {
        self.dispatch(tid, sys)
    }

    /// Records a process or thread stop.
    pub fn write_stop(&mut self, tid: isize, stop: &Record) -> (r: Vec<Output>)
        requires
            old(self).wf(),
            !old(self).finished(),
        ensures
            dispatched(*old(self), *final(self), tid, stop@, outputs_view(r@)),
    {
        self.dispatch(tid, stop)
    }

    /// Records a runtime event.
    pub fn write_event(&mut self, tid: isize, event: &Record) -> (r: Vec<Output>)
        requires
            old(self).wf(),
            !old(self).finished(),
        ensures
            dispatched(*old(self), *final(self), tid, event@, outputs_view(r@)),
    {
        self.dispatch(tid, event)
    }
}

} // verus!
