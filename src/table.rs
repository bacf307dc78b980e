use vstd::prelude::*;

verus! {

/// The three standard streams that every table starts with.
#[derive(Clone, Copy, Debug, PartialEq, Eq, Structural)]
pub enum StreamKind {
    Stdin,
    Stdout,
    Stderr,
}

/// The mode a regular file is opened in.
#[derive(Clone, Copy, Debug, PartialEq, Eq, Structural)]
pub enum OpenMode {
    Read,
    Write,
    Append,
    ReadWrite,
}

/// What a live handle stands for.
#[derive(Clone, Copy, Debug, PartialEq, Eq, Structural)]
pub enum Resource {
    Stream(StreamKind),
    File(OpenMode),
}

/// Errors handed back to the guest by the bridge operations.
#[derive(Clone, Copy, Debug, PartialEq, Eq, Structural)]
pub enum BridgeError {
    NotFound,
    PermissionDenied,
    AlreadyExists,
    BadHandle,
    IoError,
    NotSeekable,
}

pub const STDIN_HANDLE: u32 = 0;

pub const STDOUT_HANDLE: u32 = 1;

pub const STDERR_HANDLE: u32 = 2;

/// The first handle that can name a regular file.
pub const FIRST_FILE_HANDLE: u32 = 3;

/// The slots of a table as created: the three standard streams.
pub open spec fn initial_slots() -> Seq<Option<Resource>> {
    seq![
        Some(Resource::Stream(StreamKind::Stdin)),
        Some(Resource::Stream(StreamKind::Stdout)),
        Some(Resource::Stream(StreamKind::Stderr)),
    ]
}

/// A well-formed table: the standard streams sit at 0, 1 and 2, every other
/// live slot is a regular file, and every slot index fits in a handle.
pub open spec fn table_wf(s: Seq<Option<Resource>>) -> bool {
    &&& 3 <= s.len() <= u32::MAX
    &&& s.subrange(0, 3) == initial_slots()
    &&& forall|i: int| 3 <= i < s.len() && #[trigger] s[i] is Some ==> s[i]->0 is File
}

/// Handle `h` names a live resource.
pub open spec fn live(s: Seq<Option<Resource>>, h: int) -> bool {
    0 <= h < s.len() && s[h] is Some
}

/// The lowest slot at or after `i` that is free, or the length when none is.
pub open spec fn first_free_from(s: Seq<Option<Resource>>, i: int) -> int
    decreases s.len() - i,
{
    if i >= s.len() || i < 0 {
        i
    } else if s[i] is None {
        i
    } else {
        first_free_from(s, i + 1)
    }
}

/// The handle that the next open hands out: the lowest free one above the
/// standard streams.
pub open spec fn next_handle(s: Seq<Option<Resource>>) -> int {
    first_free_from(s, 3)
}

/// There is a handle left to hand out: a free slot, or room for one more
/// slot whose index still fits in a handle.
pub open spec fn has_room(s: Seq<Option<Resource>>) -> bool {
    next_handle(s) < s.len() || s.len() < u32::MAX
}

/// The slots after a file is opened in `mode` (unchanged where no handle is
/// left).
pub open spec fn spec_open(s: Seq<Option<Resource>>, mode: OpenMode) -> Seq<Option<Resource>> {
    let h = next_handle(s);
    if !has_room(s) {
        s
    } else if h < s.len() {
        s.update(h, Some(Resource::File(mode)))
    } else {
        s.push(Some(Resource::File(mode)))
    }
}

/// A close of `h` succeeds exactly on a live handle above the standard streams.
pub open spec fn closable(s: Seq<Option<Resource>>, h: int) -> bool {
    3 <= h && live(s, h)
}

/// The slots after a close of `h` (unchanged where the close fails).
pub open spec fn spec_close(s: Seq<Option<Resource>>, h: int) -> Seq<Option<Resource>> {
    if closable(s, h) {
        s.update(h, None)
    } else {
        s
    }
}

/// The resource is open for reading.
pub open spec fn readable(r: Resource) -> bool {
    match r {
        Resource::Stream(k) => k == StreamKind::Stdin,
        Resource::File(m) => m == OpenMode::Read || m == OpenMode::ReadWrite,
    }
}

/// The resource is open for writing.
pub open spec fn writable(r: Resource) -> bool {
    match r {
        Resource::Stream(k) => k != StreamKind::Stdin,
        Resource::File(m) => m != OpenMode::Read,
    }
}

proof fn lemma_first_free_bounds(s: Seq<Option<Resource>>, i: int)
    requires
        0 <= i <= s.len(),
    ensures
        i <= first_free_from(s, i) <= s.len(),
        first_free_from(s, i) < s.len() ==> s[first_free_from(s, i)] is None,
        forall|j: int| i <= j < first_free_from(s, i) ==> #[trigger] s[j] is Some,
    decreases s.len() - i,
{
    if i < s.len() && s[i] is Some {
        lemma_first_free_bounds(s, i + 1);
    }
}

/// The per-run registry from small integer handles to host resources.
pub struct DescriptorTable {
    slots: Vec<Option<Resource>>,
}

impl View for DescriptorTable {
    type V = Seq<Option<Resource>>;

    closed spec fn view(&self) -> Seq<Option<Resource>> {
        self.slots@
    }
}

impl DescriptorTable {
    pub open spec fn wf(&self) -> bool {
        table_wf(self@)
    }

    /// A table holding the three standard streams and nothing else.
    pub fn new() -> (t: DescriptorTable)
        ensures
            t@ == initial_slots(),
            t.wf(),
    {
        let mut slots: Vec<Option<Resource>> = Vec::new();
        slots.push(Some(Resource::Stream(StreamKind::Stdin)));
        slots.push(Some(Resource::Stream(StreamKind::Stdout)));
        slots.push(Some(Resource::Stream(StreamKind::Stderr)));
        let t = DescriptorTable { slots };
        proof {
            assert(t@ =~= initial_slots());
            assert(t@.subrange(0, 3) =~= initial_slots());
        }
        t
    }

    /// The number of slots, live or free; every handle is below it.
    pub fn slot_count(&self) -> (n: usize)
        ensures
            n == self@.len(),
    {
        self.slots.len()
    }

    fn find_free(&self) -> (h: usize)
        requires
            self.wf(),
        ensures
            h == next_handle(self@),
    {
        let mut i: usize = 3;
        while i < self.slots.len() && self.slots[i].is_some()
            invariant
                3 <= i <= self.slots@.len(),
                first_free_from(self@, i as int) == next_handle(self@),
            decreases self.slots@.len() - i,
        {
            i = i + 1;
        }
        i
    }

    /// What handle `h` names, if it is live.
    pub fn lookup(&self, h: u32) -> (r: Option<Resource>)
        ensures
            r == (if live(self@, h as int) { self@[h as int] } else { None }),
    {
        if (h as usize) < self.slots.len() {
            self.slots[h as usize]
        } else {
            None
        }
    }

    /// Registers a regular file opened in `mode` under the lowest free handle
    /// above the standard streams, and returns that handle. Fails with
    /// `IoError`, changing nothing, only where every handle that fits in a
    /// `u32` is in use.
    pub fn open(&mut self, mode: OpenMode) -> (r: Result<u32, BridgeError>)
        requires
            old(self).wf(),
        ensures
            final(self).wf(),
            final(self)@ == spec_open(old(self)@, mode),
            r is Ok <==> has_room(old(self)@),
            r is Err ==> r->Err_0 == BridgeError::IoError,
            r is Ok ==> r->Ok_0 == next_handle(old(self)@),
            r is Ok ==> !live(old(self)@, r->Ok_0 as int),
            r is Ok ==> final(self)@[r->Ok_0 as int] == Some(Resource::File(mode)),
            r is Ok ==> final(self)@.len() == old(self)@.len() || final(self)@.len() == old(self)@.len() + 1,
            forall|j: int| 0 <= j < old(self)@.len() && (r is Ok ==> j != r->Ok_0) ==> #[trigger] final(self)@[j] == old(self)@[j],
    {
        proof {
            lemma_first_free_bounds(old(self)@, 3);
        }
        let i = self.find_free();
        if i >= self.slots.len() && self.slots.len() >= u32::MAX as usize {
            return Err(BridgeError::IoError);
        }
        if i < self.slots.len() {
            self.slots.set(i, Some(Resource::File(mode)));
        } else {
            self.slots.push(Some(Resource::File(mode)));
        }
        proof {
            let s = old(self)@;
            let t = final(self)@;
            assert(t.subrange(0, 3) =~= s.subrange(0, 3));
            assert forall|j: int| 3 <= j < t.len() && #[trigger] t[j] is Some implies t[j]->0 is File by {
                if j != i {
                    assert(t[j] == s[j]);
                }
            }
        }
        Ok(i as u32)
    }

    /// Closes `h`. Fails with `BadHandle` on a standard stream or on a handle
    /// that is not live, and then leaves the table as it was.
    pub fn close(&mut self, h: u32) -> (r: Result<(), BridgeError>)
        requires
            old(self).wf(),
        ensures
            final(self).wf(),
            r is Ok <==> closable(old(self)@, h as int),
            r is Err ==> r == Err::<(), BridgeError>(BridgeError::BadHandle),
            final(self)@ == spec_close(old(self)@, h as int),
    {
        if h < FIRST_FILE_HANDLE || h as usize >= self.slots.len() || self.slots[h as usize].is_none() {
            return Err(BridgeError::BadHandle);
        }
        self.slots.set(h as usize, None);
        proof {
            let s = old(self)@;
            let t = final(self)@;
            assert(t.subrange(0, 3) =~= s.subrange(0, 3));
            assert(t == s.update(h as int, None));
        }
        Ok(())
    }

    /// The resource behind `h`, where it may be read from: `BadHandle` where
    /// `h` is not open, `IoError` where it is open but not for reading.
    pub fn check_read(&self, h: u32) -> (r: Result<Resource, BridgeError>)
        ensures
            r is Ok <==> live(self@, h as int) && readable(self@[h as int]->0),
            r is Ok ==> Some(r->Ok_0) == self@[h as int],
            !live(self@, h as int) ==> r == Err::<Resource, BridgeError>(BridgeError::BadHandle),
            live(self@, h as int) && !readable(self@[h as int]->0) ==> r == Err::<Resource, BridgeError>(BridgeError::IoError),
    {
        match self.lookup(h) {
            Some(res) => {
                let ok = match res {
                    Resource::Stream(k) => k == StreamKind::Stdin,
                    Resource::File(m) => m == OpenMode::Read || m == OpenMode::ReadWrite,
                };
                if ok {
                    Ok(res)
                } else {
                    Err(BridgeError::IoError)
                }
            },
            None => Err(BridgeError::BadHandle),
        }
    }

    /// The resource behind `h`, where it may be written to: `BadHandle` where
    /// `h` is not open, `IoError` where it is open but not for writing.
    pub fn check_write(&self, h: u32) -> (r: Result<Resource, BridgeError>)
        ensures
            r is Ok <==> live(self@, h as int) && writable(self@[h as int]->0),
            r is Ok ==> Some(r->Ok_0) == self@[h as int],
            !live(self@, h as int) ==> r == Err::<Resource, BridgeError>(BridgeError::BadHandle),
            live(self@, h as int) && !writable(self@[h as int]->0) ==> r == Err::<Resource, BridgeError>(BridgeError::IoError),
    {
        match self.lookup(h) {
            Some(res) => {
                let ok = match res {
                    Resource::Stream(k) => k != StreamKind::Stdin,
                    Resource::File(m) => m != OpenMode::Read,
                };
                if ok {
                    Ok(res)
                } else {
                    Err(BridgeError::IoError)
                }
            },
            None => Err(BridgeError::BadHandle),
        }
    }

    /// The mode of the file behind `h`, where it may be repositioned:
    /// `BadHandle` where `h` is not live, `NotSeekable` on a standard stream.
    pub fn check_seek(&self, h: u32) -> (r: Result<OpenMode, BridgeError>)
        ensures
            !live(self@, h as int) ==> r == Err::<OpenMode, BridgeError>(BridgeError::BadHandle),
            live(self@, h as int) && self@[h as int]->0 is Stream ==> r == Err::<OpenMode, BridgeError>(BridgeError::NotSeekable),
            live(self@, h as int) && self@[h as int]->0 is File ==> r == Ok::<OpenMode, BridgeError>(self@[h as int]->0->File_0),
    {
        match self.lookup(h) {
            Some(Resource::File(m)) => Ok(m),
            Some(Resource::Stream(_)) => Err(BridgeError::NotSeekable),
            None => Err(BridgeError::BadHandle),
        }
    }

    /// Closes every regular file, as at the end of a run, and returns their
    /// handles in increasing order. Only the standard streams stay.
    pub fn close_all(&mut self) -> (closed: Vec<u32>)
        requires
            old(self).wf(),
        ensures
            final(self).wf(),
            final(self)@ == initial_slots(),
            forall|k: int| 0 <= k < closed@.len() ==> closable(old(self)@, #[trigger] closed@[k] as int),
            forall|k: int, l: int| 0 <= k < l < closed@.len() ==> closed@[k] < closed@[l],
            forall|h: int| closable(old(self)@, h) ==> exists|k: int| 0 <= k < closed@.len() && #[trigger] closed@[k] == h,
    {
        let mut closed: Vec<u32> = Vec::new();
        let n = self.slots.len();
        let mut i: usize = 3;
        while i < n
            invariant
                3 <= i <= n,
                n == old(self)@.len(),
                table_wf(old(self)@),
                forall|k: int| 0 <= k < closed@.len() ==> closable(old(self)@, #[trigger] closed@[k] as int),
                forall|k: int| 0 <= k < closed@.len() ==> #[trigger] closed@[k] < i,
                forall|k: int, l: int| 0 <= k < l < closed@.len() ==> closed@[k] < closed@[l],
                forall|h: int| 3 <= h < i && closable(old(self)@, h) ==> exists|k: int| 0 <= k < closed@.len() && #[trigger] closed@[k] == h,
                self.slots@ == old(self)@,
            decreases n - i,
        {
            if self.slots[i].is_some() {
                let ghost prev = closed@;
                closed.push(i as u32);
                proof {
                    assert forall|h: int| 3 <= h < i + 1 && closable(old(self)@, h) implies exists|k: int| 0 <= k < closed@.len() && #[trigger] closed@[k] == h by {
                        if h == i {
                            assert(closed@[prev.len() as int] == h);
                        } else {
                            let k = choose|k: int| 0 <= k < prev.len() && #[trigger] prev[k] == h;
                            assert(closed@[k] == h);
                        }
                    }
                }
            }
            i = i + 1;
        }
        self.slots.truncate(3);
        proof {
            assert(self.slots@ =~= old(self)@.subrange(0, 3));
            assert(self@.subrange(0, 3) =~= self@);
        }
        closed
    }
}

/// A change that the guest can make to the table.
#[derive(Clone, Copy, Debug, PartialEq, Eq, Structural)]
pub enum TableOp {
    Open(OpenMode),
    Close(u32),
}

/// The slots after one operation.
pub open spec fn apply_op(s: Seq<Option<Resource>>, op: TableOp) -> Seq<Option<Resource>> {
    match op {
        TableOp::Open(m) => spec_open(s, m),
        TableOp::Close(h) => spec_close(s, h as int),
    }
}

/// The slots after a sequence of operations, first to last.
pub open spec fn apply_ops(s: Seq<Option<Resource>>, ops: Seq<TableOp>) -> Seq<Option<Resource>>
    decreases ops.len(),
{
    if ops.len() == 0 {
        s
    } else {
        apply_ops(apply_op(s, ops[0]), ops.subrange(1, ops.len() as int))
    }
}

/// A fresh table holds the three standard streams under handles 0, 1 and 2,
/// and none of them can be closed.
pub proof fn lemma_standard_handles_fixed()
    ensures
        table_wf(initial_slots()),
        live(initial_slots(), STDIN_HANDLE as int),
        live(initial_slots(), STDOUT_HANDLE as int),
        live(initial_slots(), STDERR_HANDLE as int),
        forall|s: Seq<Option<Resource>>, h: int| table_wf(s) && 0 <= h < 3 ==> !closable(s, h) && #[trigger] spec_close(s, h) == s,
{
    assert(initial_slots().subrange(0, 3) =~= initial_slots());
}

/// The close of `h` at position `k` of `ops` succeeds, in the state that the
/// operations before it leave.
pub open spec fn close_succeeds_at(s: Seq<Option<Resource>>, ops: Seq<TableOp>, h: int, k: int) -> bool {
    0 <= k < ops.len() && ops[k] == TableOp::Close(h as u32) && closable(apply_ops(s, ops.take(k)), h)
}

/// One operation keeps the table well-formed. An open hands out a handle that
/// was not live; every other slot is untouched by either operation, and a
/// failed close changes nothing.
pub proof fn lemma_op_preserves(s: Seq<Option<Resource>>, op: TableOp)
    requires
        table_wf(s),
    ensures
        table_wf(apply_op(s, op)),
        apply_op(s, op).len() >= s.len(),
        op is Open && has_room(s) ==> !live(s, next_handle(s)) && live(apply_op(s, op), next_handle(s)),
        op is Close && !closable(s, op->Close_0 as int) ==> apply_op(s, op) == s,
        forall|j: int| 0 <= j < s.len() && (op is Open ==> j != next_handle(s)) && (op is Close ==> j != op->Close_0) ==> #[trigger] apply_op(s, op)[j] == s[j],
{
    lemma_first_free_bounds(s, 3);
    let t = apply_op(s, op);
    assert(t.subrange(0, 3) =~= s.subrange(0, 3));
    assert forall|i: int| 3 <= i < t.len() && #[trigger] t[i] is Some implies t[i]->0 is File by {
        if i < s.len() && t[i] == s[i] {
            assert(s[i] is Some);
        }
    }
}

proof fn lemma_apply_ops_prefix(s: Seq<Option<Resource>>, ops: Seq<TableOp>, k: int)
    requires
        0 <= k < ops.len(),
    ensures
        apply_ops(s, ops.take(k + 1)) == apply_ops(apply_op(s, ops[0]), ops.subrange(1, ops.len() as int).take(k)),
{
    let p = ops.take(k + 1);
    assert(p.len() > 0);
    assert(p[0] == ops[0]);
    assert(p.subrange(1, p.len() as int) =~= ops.subrange(1, ops.len() as int).take(k));
}

/// Over any sequence of opens and closes the table stays well-formed, so no
/// handle is ever held twice and the standard streams stay in place. A live
/// handle keeps its resource, and so is never handed out again, until a
/// close of it succeeds.
pub proof fn lemma_ops_preserve(s: Seq<Option<Resource>>, ops: Seq<TableOp>)
    requires
        table_wf(s),
    ensures
        table_wf(apply_ops(s, ops)),
        apply_ops(s, ops).len() >= s.len(),
        forall|h: int| live(s, h) && (forall|k: int| !#[trigger] close_succeeds_at(s, ops, h, k)) ==> #[trigger] apply_ops(s, ops)[h] == s[h],
    decreases ops.len(),
{
    if ops.len() > 0 {
        let t = apply_op(s, ops[0]);
        let rest = ops.subrange(1, ops.len() as int);
        lemma_op_preserves(s, ops[0]);
        lemma_first_free_bounds(s, 3);
        lemma_ops_preserve(t, rest);
        assert forall|h: int| live(s, h) && (forall|k: int| !#[trigger] close_succeeds_at(s, ops, h, k)) implies #[trigger] apply_ops(s, ops)[h] == s[h] by {
            assert(ops.take(0) =~= Seq::<TableOp>::empty());
            assert(!close_succeeds_at(s, ops, h, 0));
            assert(t[h] == s[h]);
            assert forall|k: int| !#[trigger] close_succeeds_at(t, rest, h, k) by {
                if 0 <= k < rest.len() {
                    lemma_apply_ops_prefix(s, ops, k);
                    assert(rest[k] == ops[k + 1]);
                    assert(!close_succeeds_at(s, ops, h, k + 1));
                }
            }
        }
    }
}

} // verus!
