use vstd::prelude::*;
use vstd::utf8::encode_utf8;
use vstd::string::StrSliceExecFns;
use crate::cache::InMemoryCache;
use crate::live_object_info::{
    id_of, id_bytes_of, keccak256_of, is_record_encoding, spec_decode_error, spec_record_bytes,
    CodecError, LiveObjectInfo,
};
use crate::storage::{clone_bytes, Storage, StorageError};

verus! {

/// A request to store a new live object built from raw module bytes.
pub struct CreateLiveObjectAction {
    pub wasm_bytes: Vec<u8>,
}

/// A request to invoke a method of a stored live object.
pub struct ExecuteLiveObjectAction {
    pub live_object_id: String,
    pub method: String,
    pub args: Vec<u8>,
}

/// What a message asks for.
pub enum Action {
    CreateLiveObject(CreateLiveObjectAction),
    ExecuteLiveObject(ExecuteLiveObjectAction),
}

/// One submitted message.
pub struct Message {
    pub action: Action,
}

/// Why an action could not be performed.
#[derive(Debug, Clone, PartialEq, Eq)]
pub enum ProcessError {
    /// No live object with the requested identifier exists.
    UnknownLiveObject,
    /// The stored record could not be decoded.
    Codec(CodecError),
    /// The backing store failed.
    Storage(StorageError),
}

impl ProcessError {
    /// The error's textual form, as a sequence of characters.
    pub open spec fn text(&self) -> Seq<char> {
        match self {
            ProcessError::UnknownLiveObject => "unknown live object"@,
            ProcessError::Codec(e) => e.text(),
            ProcessError::Storage(e) => e.text(),
        }
    }

    /// The error's textual form.
    pub fn describe(&self) -> (s: String)
        ensures
            s@ == self.text(),
    {
        match self {
            ProcessError::UnknownLiveObject => String::from_str("unknown live object"),
            ProcessError::Codec(e) => e.describe(),
            ProcessError::Storage(e) => e.describe(),
        }
    }
}

/// What creating a live object does to an effective storage view: the
/// record's canonical serialization appears under the identifier bytes.
pub open spec fn create_effect(m: Map<Seq<u8>, Seq<u8>>, wasm: Seq<u8>) -> Map<Seq<u8>, Seq<u8>> {
    m.insert(id_bytes_of(wasm), spec_record_bytes(id_bytes_of(wasm), keccak256_of(wasm), wasm))
}

/// The module bytes a create message carries.
pub open spec fn msg_create_wasm(m: Message) -> Seq<u8>
    recommends
        m.action is CreateLiveObject,
{
    m.action->CreateLiveObject_0.wasm_bytes@
}

/// The storage key an execute message names: its identifier in byte form.
pub open spec fn msg_exec_key(m: Message) -> Seq<u8>
    recommends
        m.action is ExecuteLiveObject,
{
    encode_utf8(m.action->ExecuteLiveObject_0.live_object_id@)
}

/// The method name an execute message names.
pub open spec fn msg_exec_method(m: Message) -> Seq<char>
    recommends
        m.action is ExecuteLiveObject,
{
    m.action->ExecuteLiveObject_0.method@
}

/// The argument bytes an execute message carries.
pub open spec fn msg_exec_args(m: Message) -> Seq<u8>
    recommends
        m.action is ExecuteLiveObject,
{
    m.action->ExecuteLiveObject_0.args@
}

impl CreateLiveObjectAction {
    /// Perform the create: build the content-addressed record and buffer
    /// it in the overlay under its identifier bytes. Returns the
    /// identifier. Re-creating the same module overwrites the record with
    /// identical bytes.
    pub fn perform(&self, cache: &mut InMemoryCache) -> (id: String)
        requires
            old(cache).wf(),
        ensures
            final(cache).wf(),
            id@ == id_of(self.wasm_bytes@),
            forall|b: Map<Seq<u8>, Seq<u8>>| #[trigger]
                final(cache).effective(b) == create_effect(old(cache).effective(b), self.wasm_bytes@),
            is_record_encoding(
                spec_record_bytes(
                    id_bytes_of(self.wasm_bytes@),
                    keccak256_of(self.wasm_bytes@),
                    self.wasm_bytes@,
                ),
                id_bytes_of(self.wasm_bytes@),
                keccak256_of(self.wasm_bytes@),
                self.wasm_bytes@,
            ),
    {
        let info = LiveObjectInfo::new(clone_bytes(&self.wasm_bytes));
        let key = info.id_bytes();
        let value = info.to_bytes();
        proof {
            assert(key@ == id_bytes_of(self.wasm_bytes@));
            assert(value@ == spec_record_bytes(
                id_bytes_of(self.wasm_bytes@),
                keccak256_of(self.wasm_bytes@),
                self.wasm_bytes@,
            ));
        }
        let id = info.id;
        cache.set(key, value);
        id
    }
}

impl ExecuteLiveObjectAction {
    /// Load the live object named by the message from the overlay and
    /// decode its record; an absent key is an unknown live object.
    pub fn prepare<S: Storage>(&self, cache: &mut InMemoryCache, storage: &S) -> (r: Result<
        LiveObjectInfo,
        ProcessError,
    >)
        requires
            old(cache).wf(),
            storage.inv(),
        ensures
            final(cache).wf(),
            final(cache).tombstones() == old(cache).tombstones(),
            final(cache).effective(storage.view()) == old(cache).effective(storage.view()),
            r matches Ok(info) ==> old(cache).effective(storage.view()).contains_key(
                encode_utf8(self.live_object_id@),
            ) && is_record_encoding(
                old(cache).effective(storage.view())[encode_utf8(self.live_object_id@)],
                encode_utf8(info.id@),
                info.hash@,
                info.wasm_bytes@,
            ),
            (r matches Err(e) && e is UnknownLiveObject) <==> !old(cache).effective(
                storage.view(),
            ).contains_key(encode_utf8(self.live_object_id@)),
            r matches Err(e) && e is Codec ==> old(cache).effective(storage.view()).contains_key(
                encode_utf8(self.live_object_id@),
            ) && (forall|idb: Seq<u8>, h: Seq<u8>, w: Seq<u8>|
                !is_record_encoding(
                    old(cache).effective(storage.view())[encode_utf8(self.live_object_id@)],
                    idb,
                    h,
                    w,
                )),
            r matches Err(ProcessError::Codec(ce)) ==> ce == spec_decode_error(
                old(cache).effective(storage.view())[encode_utf8(self.live_object_id@)],
            ),
            storage.infallible() ==> !(r matches Err(e) && e is Storage),
            old(cache).buffer().contains_key(encode_utf8(self.live_object_id@)) ==> !(
            r matches Err(e) && e is Storage),
            storage.infallible() && old(cache).effective(storage.view()).contains_key(
                encode_utf8(self.live_object_id@),
            ) && (exists|idb: Seq<u8>, h: Seq<u8>, w: Seq<u8>|
                is_record_encoding(
                    old(cache).effective(storage.view())[encode_utf8(self.live_object_id@)],
                    idb,
                    h,
                    w,
                )) ==> r is Ok,
    {
        let key = self.live_object_id.as_str().as_bytes_vec();
        let bytes = match cache.get(storage, &key) {
            Ok(b) => b,
            Err(StorageError::NotFound) => {
                return Err(ProcessError::UnknownLiveObject);
            },
            Err(e) => {
                return Err(ProcessError::Storage(e));
            },
        };
        match LiveObjectInfo::from_bytes(&bytes) {
            Ok(info) => Ok(info),
            Err(e) => Err(ProcessError::Codec(e)),
        }
    }
}

/// What the batch driver must run next: the module, method and arguments
/// of the execute message now at the front.
pub struct ExecRequest {
    pub info: LiveObjectInfo,
    pub method: String,
    pub args: Vec<u8>,
}

/// What a driving step decided.
pub enum BatchStep {
    /// A message was performed inside the core; step again.
    Continue,
    /// The embedding must run this method on this live object and report
    /// the outcome through `vm_completed`.
    Run(ExecRequest),
    /// The batch is finished with this textual result.
    Done(String),
}

/// A message batch in flight: the messages, how far they are processed,
/// and the last action's textual result. Messages run in submission
/// order; the first failure ends the batch, and only a batch whose every
/// message succeeded commits the overlay.
pub struct MessageBatch {
    messages: Vec<Message>,
    next: usize,
    awaiting: bool,
    finished: bool,
    committed: bool,
    failed: Option<String>,
    last_result: String,
}

impl MessageBatch {
    /// The messages of the batch.
    pub closed spec fn messages_view(&self) -> Seq<Message> {
        self.messages@
    }

    /// The index of the first unprocessed message.
    pub closed spec fn next_index(&self) -> int {
        self.next as int
    }

    /// Whether an execute request is out with the embedding.
    pub closed spec fn awaiting_vm(&self) -> bool {
        self.awaiting
    }

    /// Whether the batch has ended.
    pub closed spec fn is_finished(&self) -> bool {
        self.finished
    }

    /// Whether the overlay was committed to the backing store.
    pub closed spec fn committed(&self) -> bool {
        self.committed
    }

    /// The failure that ended the batch, if one did.
    pub closed spec fn failure(&self) -> Option<String> {
        self.failed
    }

    /// The last performed action's textual result.
    pub closed spec fn result_text(&self) -> Seq<char> {
        self.last_result@
    }

    /// The driving protocol's bookkeeping invariant.
    pub open spec fn inv(&self) -> bool {
        &&& 0 <= self.next_index() <= self.messages_view().len()
        &&& (self.awaiting_vm() ==> self.next_index() < self.messages_view().len()
            && self.messages_view()[self.next_index()].action is ExecuteLiveObject
            && !self.is_finished() && self.failure() is None)
        &&& (self.committed() ==> self.is_finished())
    }

    /// A fresh batch over the given messages.
    pub fn new(messages: Vec<Message>) -> (b: Self)
        ensures
            b.inv(),
            b.messages_view() == messages@,
            b.next_index() == 0,
            !b.awaiting_vm(),
            !b.is_finished(),
            !b.committed(),
            b.failure() is None,
            b.result_text() == Seq::<char>::empty(),
    {
        let b = MessageBatch {
            messages,
            next: 0,
            awaiting: false,
            finished: false,
            committed: false,
            failed: None,
            last_result: String::from_str(""),
        };
        proof {
            reveal_strlit("");
            assert(b.result_text() =~= Seq::<char>::empty());
        }
        b
    }

    /// Drive the batch by one decision. Creates are performed outright;
    /// an execute message is handed out as a run request; when every
    /// message has succeeded the overlay is committed. The backing store
    /// is written by the commit alone: any failing path leaves it as it
    /// was.
    pub fn step<S: Storage>(&mut self, cache: &mut InMemoryCache, storage: &mut S) -> (r:
        BatchStep)
        requires
            old(self).inv(),
            !old(self).awaiting_vm(),
            !old(self).is_finished(),
            old(cache).wf(),
            old(storage).inv(),
        ensures
            final(self).inv(),
            final(cache).wf(),
            final(storage).inv(),
            final(storage).infallible() == old(storage).infallible(),
            final(self).messages_view() == old(self).messages_view(),
            // a recorded failure ends the batch; nothing is committed
            old(self).failure() matches Some(msg) ==> {
                &&& r matches BatchStep::Done(s) && s@ == msg@
                &&& final(storage).view() == old(storage).view()
                &&& final(cache).buffer() == old(cache).buffer()
                &&& final(cache).tombstones() == old(cache).tombstones()
                &&& final(self).is_finished()
                &&& !final(self).committed()
            },
            // every message succeeded: the commit decides the result
            old(self).failure() is None && old(self).next_index() == old(
                self,
            ).messages_view().len() ==> {
                &&& r is Done
                &&& final(self).is_finished()
                &&& final(cache).buffer() == old(cache).buffer()
                &&& final(cache).tombstones() == old(cache).tombstones()
                &&& (final(self).committed() ==> final(storage).view() == old(cache).effective(
                    old(storage).view(),
                ) && (r matches BatchStep::Done(s) && s@ == old(self).result_text()))
                &&& (old(storage).infallible() ==> final(self).committed())
                &&& (old(cache).buffer() == Map::<Seq<u8>, Seq<u8>>::empty() && old(
                    cache,
                ).tombstones() == Set::<Seq<u8>>::empty() ==> final(self).committed())
            },
            // a create message is performed inside the core
            old(self).failure() is None && old(self).next_index() < old(
                self,
            ).messages_view().len() && old(self).messages_view()[old(self).next_index()].action
                is CreateLiveObject ==> {
                &&& r is Continue
                &&& final(storage).view() == old(storage).view()
                &&& final(self).next_index() == old(self).next_index() + 1
                &&& !final(self).is_finished()
                &&& final(self).failure() is None
                &&& !final(self).awaiting_vm()
                &&& forall|b: Map<Seq<u8>, Seq<u8>>| #[trigger]
                    final(cache).effective(b) == create_effect(
                        old(cache).effective(b),
                        msg_create_wasm(old(self).messages_view()[old(self).next_index()]),
                    )
                &&& final(self).result_text() == id_of(
                    msg_create_wasm(old(self).messages_view()[old(self).next_index()]),
                )
                &&& is_record_encoding(
                    spec_record_bytes(
                        id_bytes_of(msg_create_wasm(old(self).messages_view()[old(self).next_index()])),
                        keccak256_of(msg_create_wasm(old(self).messages_view()[old(self).next_index()])),
                        msg_create_wasm(old(self).messages_view()[old(self).next_index()]),
                    ),
                    id_bytes_of(msg_create_wasm(old(self).messages_view()[old(self).next_index()])),
                    keccak256_of(msg_create_wasm(old(self).messages_view()[old(self).next_index()])),
                    msg_create_wasm(old(self).messages_view()[old(self).next_index()]),
                )
            },
            // an execute message is loaded and handed out, or ends the batch
            old(self).failure() is None && old(self).next_index() < old(
                self,
            ).messages_view().len() && old(self).messages_view()[old(self).next_index()].action
                is ExecuteLiveObject ==> {
                let m = old(self).messages_view()[old(self).next_index()];
                &&& final(storage).view() == old(storage).view()
                &&& final(cache).effective(old(storage).view()) == old(cache).effective(
                    old(storage).view(),
                )
                &&& (r matches BatchStep::Run(req) ==> {
                    &&& final(self).awaiting_vm()
                    &&& final(self).next_index() == old(self).next_index()
                    &&& req.method@ == msg_exec_method(m)
                    &&& req.args@ == msg_exec_args(m)
                    &&& old(cache).effective(old(storage).view()).contains_key(msg_exec_key(m))
                    &&& is_record_encoding(
                        old(cache).effective(old(storage).view())[msg_exec_key(m)],
                        encode_utf8(req.info.id@),
                        req.info.hash@,
                        req.info.wasm_bytes@,
                    )
                })
                &&& (r matches BatchStep::Done(s) ==> final(self).is_finished()
                    && !final(self).committed())
                &&& (!old(cache).effective(old(storage).view()).contains_key(msg_exec_key(m))
                    ==> (r matches BatchStep::Done(s) && s@ == "unknown live object"@))
                &&& (old(storage).infallible() && old(cache).effective(
                    old(storage).view(),
                ).contains_key(msg_exec_key(m)) && (exists|idb: Seq<u8>, h: Seq<u8>, w: Seq<u8>|
                    is_record_encoding(
                        old(cache).effective(old(storage).view())[msg_exec_key(m)],
                        idb,
                        h,
                        w,
                    )) ==> r is Run)
                &&& (old(storage).infallible() && old(cache).effective(
                    old(storage).view(),
                ).contains_key(msg_exec_key(m)) && (forall|idb: Seq<u8>, h: Seq<u8>, w: Seq<u8>|
                    !is_record_encoding(
                        old(cache).effective(old(storage).view())[msg_exec_key(m)],
                        idb,
                        h,
                        w,
                    )) ==> (r matches BatchStep::Done(s) && s@ == ProcessError::Codec(
                    spec_decode_error(
                        old(cache).effective(old(storage).view())[msg_exec_key(m)],
                    ),
                ).text()))
                &&& r !is Continue
            },
    {
        match &self.failed {
            Some(e) => {
                let text = clone_string(e);
                self.finished = true;
                return BatchStep::Done(text);
            },
            None => {},
        }
        let n = self.messages.len();
        if self.next == n {
            self.finished = true;
            match cache.commit(storage) {
                Ok(()) => {
                    self.committed = true;
                    return BatchStep::Done(clone_string(&self.last_result));
                },
                Err(e) => {
                    return BatchStep::Done(e.describe());
                },
            }
        }
        let ix = self.next;
        let performed = match &self.messages[ix].action {
            Action::CreateLiveObject(a) => Performed::Created(a.perform(cache)),
            Action::ExecuteLiveObject(a) => match a.prepare(cache, storage) {
                Ok(info) => Performed::Prepared(
                    ExecRequest {
                        info,
                        method: clone_string(&a.method),
                        args: clone_bytes(&a.args),
                    },
                ),
                Err(e) => Performed::Failed(e),
            },
        };
        match performed {
            Performed::Created(id) => {
                self.last_result = id;
                self.next = ix + 1;
                BatchStep::Continue
            },
            Performed::Prepared(req) => {
                self.awaiting = true;
                BatchStep::Run(req)
            },
            Performed::Failed(e) => {
                self.finished = true;
                BatchStep::Done(e.describe())
            },
        }
    }

    /// Record the embedding's outcome for the execute request that is
    /// out: a result advances the batch, a failure ends it on the next
    /// step. The backing store is not touched either way.
    pub fn vm_completed(&mut self, outcome: Result<String, String>)
        requires
            old(self).inv(),
            old(self).awaiting_vm(),
        ensures
            final(self).inv(),
            !final(self).awaiting_vm(),
            !final(self).is_finished(),
            !final(self).committed(),
            final(self).messages_view() == old(self).messages_view(),
            outcome matches Ok(s) ==> final(self).next_index() == old(self).next_index() + 1
                && final(self).result_text() == s@ && final(self).failure() is None,
            outcome matches Err(e) ==> (final(self).failure() matches Some(f) && f@ == e@)
                && final(self).next_index() == old(self).next_index(),
    {
        self.awaiting = false;
        match outcome {
            Ok(s) => {
                let n = self.messages.len();
                proof {
                    assert(self.next < n);
                }
                self.last_result = s;
                self.next = self.next + 1;
            },
            Err(e) => {
                self.failed = Some(e);
            },
        }
    }
}

/// What one driving step did with the message at the front.
enum Performed {
    Created(String),
    Prepared(ExecRequest),
    Failed(ProcessError),
}

/// The processor: owns the backing store and drives message batches
/// against it through per-batch overlays.
pub struct Processor<S: Storage> {
    pub storage: S,
}

impl<S: Storage> Processor<S> {
    /// A processor over the given backing store.
    pub fn new(storage: S) -> (p: Self)
        ensures
            p.storage == storage,
    {
        Processor { storage }
    }
}

/// Clone a string.
fn clone_string(s: &String) -> (r: String)
    ensures
        r@ == s@,
{
    String::from_str(s.as_str())
}

} // verus!
