//! The I/O capability the protocol engine consumes, and the policy
//! layer that guards it: client-supplied paths may not be absolute
//! and may not contain a parent-directory component, and a read-only
//! server refuses every create.

use vstd::prelude::*;
use vstd::string::StringSliceAdditionalSpecFns;
use vstd::string::StringExecFns;

verus! {

/// A source of file data, read one block at a time.
pub trait ReadSource {
    /// Reads the next block of at most `limit` bytes; a block
    /// shorter than `limit` means the source has ended.
    fn read_block(&mut self, limit: usize) -> (r: Result<Vec<u8>, ()>)
        ensures
            r matches Ok(v) ==> v@.len() <= limit,
    ;
}

/// A sink for file data.
pub trait WriteSink {
    /// Appends `data` to the sink.
    fn write_all(&mut self, data: &[u8]) -> Result<(), ()>;
}

/// The narrow filesystem capability a server is built over. The
/// default in-memory implementation is `FSAdapter`; a binary wires
/// in one backed by a real filesystem.
pub trait IOAdapter {
    type R: ReadSource;

    type W: WriteSink;

    /// Opens a file for reading, with its length when known.
    fn open_read(&self, file: &str) -> Result<(Self::R, Option<u64>), ()>;

    /// Creates a file that must not already exist, with an optional
    /// preallocation hint.
    fn create_new(&mut self, file: &str, len: Option<u64>) -> Result<Self::W, ()>;
}

// ---------------------------------------------------------------
// Path safety
// ---------------------------------------------------------------

/// The path has a `..` component: a `..` bounded by the string's
/// ends or by separators.
pub open spec fn has_parent_component(s: Seq<u8>) -> bool {
    exists|i: int|
        0 <= i && i + 2 <= s.len() && #[trigger] s[i] == 0x2e && s[i + 1] == 0x2e && (i == 0 || s[i
            - 1] == 0x2f) && (i + 2 == s.len() || s[i + 2] == 0x2f)
}

/// A client-supplied path the policy refuses: absolute, or holding a
/// parent-directory component.
pub open spec fn path_refused(s: Seq<u8>) -> bool {
    (s.len() > 0 && s[0] == 0x2f) || has_parent_component(s)
}

/// Decides whether the policy refuses a client-supplied path.
pub fn is_path_refused(s: &str) -> (r: bool)
    ensures
        r == path_refused(s.spec_bytes()),
{
    let b = s.as_bytes();
    let n = b.len();
    if n > 0 && b[0] == 0x2f {
        return true;
    }
    if n < 2 {
        assert(!has_parent_component(b@));
        return false;
    }
    let mut i: usize = 0;
    while i <= n - 2
        invariant
            n == b@.len(),
            b@ == s.spec_bytes(),
            2 <= n,
            i <= n - 1,
            forall|j: int|
                0 <= j < i ==> !(#[trigger] b@[j] == 0x2e && b@[j + 1] == 0x2e && (j == 0 || b@[j
                    - 1] == 0x2f) && (j + 2 == b@.len() || b@[j + 2] == 0x2f)),
        decreases n - i,
    {
        if b[i] == 0x2e && b[i + 1] == 0x2e && (i == 0 || b[i - 1] == 0x2f) && (i + 2 == n || b[i
            + 2] == 0x2f) {
            proof {
                let w = i as int;
                assert(0 <= w && w + 2 <= b@.len() && b@[w] == 0x2e && b@[w + 1] == 0x2e && (w == 0
                    || b@[w - 1] == 0x2f) && (w + 2 == b@.len() || b@[w + 2] == 0x2f));
                assert(has_parent_component(b@));
            }
            return true;
        }
        i += 1;
    }
    proof {
        assert forall|j: int|
            0 <= j && j + 2 <= b@.len() implies !(#[trigger] b@[j] == 0x2e && b@[j + 1] == 0x2e && (
        j == 0 || b@[j - 1] == 0x2f) && (j + 2 == b@.len() || b@[j + 2] == 0x2f)) by {
            assert(j < i);
        }
        assert(!has_parent_component(b@));
    }
    false
}

// ---------------------------------------------------------------
// The policy proxy
// ---------------------------------------------------------------

/// How the policy is configured: a read-only toggle and an optional
/// base directory all paths are joined under.
pub struct IOPolicyCfg {
    pub readonly: bool,
    pub path: Option<String>,
}

impl Default for IOPolicyCfg {
    fn default() -> (r: Self)
        ensures
            !r.readonly,
            r.path is None,
    {
        Self { readonly: false, path: None }
    }
}

/// Wraps an I/O capability with the path policy.
pub(crate) struct IOPolicyProxy<IO: IOAdapter> {
    pub(crate) io: IO,
    pub(crate) policy: IOPolicyCfg,
}

impl<IO: IOAdapter> IOPolicyProxy<IO> {
    pub(crate) fn new(io: IO, cfg: IOPolicyCfg) -> (r: Self)
        ensures
            r.policy.readonly == cfg.readonly,
    {
        Self { io, policy: cfg }
    }

    /// Opens a file for reading; a refused path never reaches the
    /// underlying capability.
    pub(crate) fn open_read(&self, file: &str) -> (r: Result<(IO::R, Option<u64>), ()>)
        ensures
            path_refused(file.spec_bytes()) ==> r is Err,
    {
        if is_path_refused(file) {
            Err(())
        } else if let Some(base) = &self.policy.path {
            let full = join_path(base, file);
            self.io.open_read(full.as_str())
        } else {
            self.io.open_read(file)
        }
    }

    /// Creates a new file; a refused path or a read-only policy
    /// never reaches the underlying capability.
    pub(crate) fn create_new(&mut self, file: &str, len: Option<u64>) -> (r: Result<IO::W, ()>)
        ensures
            path_refused(file.spec_bytes()) || old(self).policy.readonly ==> r is Err,
            final(self).policy.readonly == old(self).policy.readonly,
    {
        if self.policy.readonly || is_path_refused(file) {
            Err(())
        } else {
            let use_base = self.policy.path.is_some();
            if use_base {
                let full = match &self.policy.path {
                    Some(base) => join_path(base, file),
                    None => String::new(),
                };
                self.io.create_new(full.as_str(), len)
            } else {
                self.io.create_new(file, len)
            }
        }
    }
}

/// Joins a base directory and a relative path with a separator.
fn join_path(base: &String, file: &str) -> (r: String)
    ensures
        r@ == base@ + "/"@ + file@,
{
    let mut s = base.clone();
    s.append("/");
    s.append(file);
    s
}

// ---------------------------------------------------------------
// The default in-memory capability
// ---------------------------------------------------------------

/// Reads from an in-memory byte buffer.
pub struct MemReader {
    data: Vec<u8>,
    pos: usize,
}

impl ReadSource for MemReader {
    fn read_block(&mut self, limit: usize) -> (r: Result<Vec<u8>, ()>) {
        let len = self.data.len();
        let remaining = if self.pos <= len {
            len - self.pos
        } else {
            0
        };
        let k = if limit < remaining {
            limit
        } else {
            remaining
        };
        let mut out: Vec<u8> = Vec::new();
        let mut i: usize = 0;
        while i < k
            invariant
                k <= limit,
                len == self.data@.len(),
                k != 0 ==> self.pos + k <= len,
                i <= k,
                out@.len() == i,
            decreases k - i,
        {
            out.push(self.data[self.pos + i]);
            i += 1;
        }
        self.pos = self.pos + k;
        Ok(out)
    }
}

/// Collects written bytes in memory.
pub struct MemWriter {
    data: Vec<u8>,
}

impl WriteSink for MemWriter {
    fn write_all(&mut self, data: &[u8]) -> Result<(), ()> {
        crate::wire::push_bytes(&mut self.data, data);
        Ok(())
    }
}

/// The default `IOAdapter`: an in-memory table of named files to
/// read, with create-new semantics that refuse a name already
/// present. It performs no file I/O — a binary that serves real
/// files supplies its own adapter over the filesystem and keeps the
/// same policy in front of it — so tests and examples can drive
/// whole transfers deterministically.
pub struct FSAdapter {
    files: Vec<(String, Vec<u8>)>,
    created: Vec<String>,
}

impl Default for FSAdapter {
    fn default() -> (r: Self) {
        FSAdapter { files: Vec::new(), created: Vec::new() }
    }
}

impl FSAdapter {
    /// Makes `name` readable with the given contents.
    pub fn insert_file(&mut self, name: String, data: Vec<u8>) {
        self.files.push((name, data));
    }

    fn find_file(&self, file: &str) -> (r: Option<usize>)
        ensures
            r matches Some(i) ==> i < self.files@.len(),
    {
        let n = self.files.len();
        let mut i: usize = 0;
        while i < n
            invariant
                n == self.files@.len(),
                i <= n,
            decreases n - i,
        {
            if crate::wire::bytes_eq(self.files[i].0.as_str().as_bytes(), file.as_bytes()) {
                return Some(i);
            }
            i += 1;
        }
        None
    }

    fn name_taken(&self, file: &str) -> bool {
        if self.find_file(file).is_some() {
            return true;
        }
        let n = self.created.len();
        let mut i: usize = 0;
        while i < n
            invariant
                n == self.created@.len(),
                i <= n,
            decreases n - i,
        {
            if crate::wire::bytes_eq(self.created[i].as_str().as_bytes(), file.as_bytes()) {
                return true;
            }
            i += 1;
        }
        false
    }
}

impl IOAdapter for FSAdapter {
    type R = MemReader;

    type W = MemWriter;

    fn open_read(&self, file: &str) -> Result<(MemReader, Option<u64>), ()> {
        match self.find_file(file) {
            Some(i) => {
                let data = crate::wire::clone_bytes(&self.files[i].1);
                let len = data.len() as u64;
                Ok((MemReader { data, pos: 0 }, Some(len)))
            },
            None => Err(()),
        }
    }

    fn create_new(&mut self, file: &str, _len: Option<u64>) -> Result<MemWriter, ()> {
        if self.name_taken(file) {
            Err(())
        } else {
            self.created.push(file.to_owned());
            Ok(MemWriter { data: Vec::new() })
        }
    }
}

} // verus!
