use vstd::prelude::*;
use vstd::hash_map::StringHashMap;
use vstd::rwlock::{RwLock, RwLockPredicate};
use std::sync::Arc;
use std::sync::atomic::AtomicU64;

verus! {

/// `std::sync::RwLock`, carried opaquely as the lock of a stream's bytes.
#[verifier::external_type_specification]
#[verifier::external_body]
#[verifier::reject_recursive_types(T)]
pub struct ExStdRwLock<T: ?Sized>(std::sync::RwLock<T>);

/// `std::sync::RwLock::new`: builds a lock around the value.  Nothing is
/// stated of the lock's contents, which change behind shared references.
pub assume_specification<T>[ std::sync::RwLock::<T>::new ](t: T) -> std::sync::RwLock<T>;

/// Capacity reserved for a new stream's buffer (1 MiB).
pub const STREAM_BUFFER_CAPACITY: usize = 1048576;

/// A single data stream in memory: a named byte buffer shared between the
/// producer and consumer plugins, and the time of its last update.
#[derive(Debug)]
pub struct DataStream {
    pub name: String,
    pub data: Arc<std::sync::RwLock<Vec<u8>>>,
    pub last_updated: AtomicU64,
}

impl DataStream {
    /// A stream with the given name, an empty buffer of 1 MiB capacity and
    /// no update yet (`last_updated` is 0).  The buffer and the counter are
    /// shared, mutable cells: only the name is stated.
    pub fn new(name: String) -> (s: Self)
        ensures
            s.name@ == name@,
    {
        DataStream {
            name,
            data: Arc::new(std::sync::RwLock::new(Vec::with_capacity(STREAM_BUFFER_CAPACITY))),
            last_updated: AtomicU64::new(0),
        }
    }
}

/// The streams of a router, filed by name.
pub struct StreamTable {
    map: StringHashMap<Arc<DataStream>>,
}

impl View for StreamTable {
    type V = Map<Seq<char>, Arc<DataStream>>;

    closed spec fn view(&self) -> Map<Seq<char>, Arc<DataStream>> {
        self.map@
    }
}

impl StreamTable {
    /// Every stream is filed under its own name.
    pub open spec fn filed_by_name(&self) -> bool {
        forall|k: Seq<char>| #[trigger] self@.contains_key(k) ==> self@[k].name@ == k
    }

    /// A table with no streams.
    pub fn new() -> (t: Self)
        ensures
            t@ == Map::<Seq<char>, Arc<DataStream>>::empty(),
    {
        StreamTable { map: StringHashMap::new() }
    }

    /// The stream filed under `name`, if any.
    pub fn get(&self, name: &str) -> (r: Option<Arc<DataStream>>)
        ensures
            r == (if self@.contains_key(name@) {
                Some(self@[name@])
            } else {
                None::<Arc<DataStream>>
            }),
    {
        match self.map.get(name) {
            Some(s) => Some(s.clone()),
            None => None,
        }
    }

    /// The stream filed under `name`; when there is none, a new stream of
    /// that name is created and filed.
    pub fn get_or_create(&mut self, name: &str) -> (s: Arc<DataStream>)
        ensures
            old(self)@.contains_key(name@) ==> final(self)@ == old(self)@ && s == old(self)@[name@],
            !old(self)@.contains_key(name@) ==> final(self)@ == old(self)@.insert(name@, s)
                && s.name@ == name@,
    {
        match self.map.get(name) {
            Some(s) => s.clone(),
            None => {
                let stream = Arc::new(DataStream::new(name.to_string()));
                let filed = stream.clone();
                self.map.insert(name.to_string(), filed);
                stream
            },
        }
    }
}

/// Looking a name up after `get_or_create` gives the stream it returned,
/// whether that stream was already filed or has just been created.
pub proof fn lemma_get_after_get_or_create(before: StreamTable, after: StreamTable, name: Seq<char>, s: Arc<DataStream>)
    requires
        before@.contains_key(name) ==> after@ == before@ && s == before@[name],
        !before@.contains_key(name) ==> after@ == before@.insert(name, s) && s.name@ == name,
    ensures
        after@.contains_key(name),
        after@[name] == s,
        before.filed_by_name() ==> after.filed_by_name(),
{
}

/// The invariant of the router's table: every stream is filed under its own
/// name.
pub struct StreamsFiledByName;

impl RwLockPredicate<StreamTable> for StreamsFiledByName {
    open spec fn inv(self, table: StreamTable) -> bool {
        table.filed_by_name()
    }
}

/// The router holding the shared memory streams, by name.
pub struct MemoryRouter {
    streams: RwLock<StreamTable, StreamsFiledByName>,
}

impl MemoryRouter {
    /// The table lock keeps every stream filed under its own name.
    #[verifier::type_invariant]
    spec fn files_by_name(&self) -> bool {
        self.streams.pred() == StreamsFiledByName
    }

    /// A router with no streams.
    pub fn new() -> (r: Self) {
        MemoryRouter { streams: RwLock::new(StreamTable::new(), Ghost(StreamsFiledByName)) }
    }

    /// The stream with the given name, created (with an empty buffer) and
    /// filed when there is none yet.  The table sits behind a lock shared
    /// between threads: what it held before the call is not known here, so
    /// the result is stated by its name.
    pub fn get_or_create_stream(&self, name: &str) -> (s: Arc<DataStream>)
        ensures
            s.name@ == name@,
    {
        proof {
            use_type_invariant(self);
        }
        let (mut table, handle) = self.streams.acquire_write();
        let s = table.get_or_create(name);
        handle.release_write(table);
        s
    }

    /// The stream with the given name, if one was created.  As for
    /// `get_or_create_stream`, only the name of a stream found is stated.
    pub fn get_stream(&self, name: &str) -> (r: Option<Arc<DataStream>>)
        ensures
            r matches Some(s) ==> s.name@ == name@,
    {
        proof {
            use_type_invariant(self);
        }
        let read = self.streams.acquire_read();
        let r = read.borrow().get(name);
        read.release_read();
        r
    }
}

} // verus!
