use vstd::prelude::*;

use crate::errors::Errno;
use vstd::string::StringSliceAdditionalSpecFns;
use crate::name_map::{entries_map, lemma_entries_map_index, NameMap};
use crate::procfs::{version_file_name, version_name, ProcDir, ProcVersionFile};
use crate::tmpfs::{read_len, written, TmpfsDir, TmpfsFile};

verus! {

/// The path separator `/`.
pub const SLASH: u8 = 47;

/// A node of the file system, named by its place in the node arena.
pub type NodeId = usize;

/// Whether a node is a file or a directory.
#[derive(Clone, Copy, Debug, PartialEq, Eq, Structural)]
pub enum NodeType {
    File,
    Directory,
}

/// One entry of a directory listing.
#[derive(Clone, Debug)]
pub struct DirEntry {
    pub name: Vec<u8>,
    pub ino: u64,
    pub node_type: NodeType,
}

/// The root directory, whose entries are the mount points.
pub struct RootDir {
    pub ino: u64,
}

/// A node of the file system.
pub enum VfsNode {
    TmpfsFile(TmpfsFile),
    TmpfsDir(TmpfsDir),
    ProcVersionFile(ProcVersionFile),
    ProcDir(ProcDir),
    RootDir(RootDir),
}

/// The inode number of a node.
pub open spec fn node_ino(n: VfsNode) -> u64 {
    match n {
        VfsNode::TmpfsFile(f) => f.ino,
        VfsNode::TmpfsDir(d) => d.ino,
        VfsNode::ProcVersionFile(f) => f.ino,
        VfsNode::ProcDir(d) => d.ino,
        VfsNode::RootDir(d) => d.ino,
    }
}

/// Whether a node is a file or a directory.
pub open spec fn node_type_of(n: VfsNode) -> NodeType {
    match n {
        VfsNode::TmpfsFile(_) => NodeType::File,
        VfsNode::ProcVersionFile(_) => NodeType::File,
        _ => NodeType::Directory,
    }
}

/// A mount path `mp` covers `path` when they are equal or `path` goes on
/// below `mp` after a `/`.
pub open spec fn mount_matches(mp: Seq<u8>, path: Seq<u8>) -> bool {
    path == mp || (mp.len() < path.len() && path.subrange(0, mp.len() as int) == mp
        && path[mp.len() as int] == SLASH)
}

/// Entry `i` of the mount table is the one that serves `path`: the first of
/// the longest mount paths that cover it.
pub open spec fn is_best_mount(s: Seq<(Seq<u8>, usize)>, path: Seq<u8>, i: int) -> bool {
    &&& 0 <= i < s.len()
    &&& mount_matches(s[i].0, path)
    &&& forall|j: int|
        0 <= j < i && mount_matches(#[trigger] s[j].0, path) ==> s[j].0.len() < s[i].0.len()
    &&& forall|j: int|
        i < j < s.len() && mount_matches(#[trigger] s[j].0, path) ==> s[j].0.len() <= s[i].0.len()
}

/// The state of splitting a path: the components found so far and the one
/// being read.
pub open spec fn split_state(p: Seq<u8>) -> (Seq<Seq<u8>>, Seq<u8>)
    decreases p.len(),
{
    if p.len() == 0 {
        (Seq::empty(), Seq::empty())
    } else {
        let (done, cur) = split_state(p.drop_last());
        if p.last() == SLASH {
            if cur.len() > 0 {
                (done.push(cur), Seq::empty())
            } else {
                (done, cur)
            }
        } else {
            (done, cur.push(p.last()))
        }
    }
}

/// The non-empty parts of a path between slashes, in order.
pub open spec fn path_components(p: Seq<u8>) -> Seq<Seq<u8>> {
    let (done, cur) = split_state(p);
    if cur.len() > 0 {
        done.push(cur)
    } else {
        done
    }
}

/// The position of the last `/` of a path.
pub open spec fn last_slash(p: Seq<u8>) -> Option<int>
    decreases p.len(),
{
    if p.len() == 0 {
        None
    } else if p.last() == SLASH {
        Some(p.len() - 1)
    } else {
        last_slash(p.drop_last())
    }
}

/// The entries of the root directory: the mount points but `/`, each
/// without its leading `/`.
pub open spec fn root_listing(s: Seq<(Seq<u8>, usize)>) -> Seq<(Seq<u8>, usize)>
    decreases s.len(),
{
    if s.len() == 0 {
        Seq::empty()
    } else {
        let rest = root_listing(s.drop_last());
        if s.last().0 == seq![SLASH] {
            rest
        } else {
            rest.push((s.last().0.drop_first(), s.last().1))
        }
    }
}

/// The references a node holds lead to nodes of an arena of `len` nodes.
pub open spec fn node_ok(n: VfsNode, len: nat) -> bool {
    match n {
        VfsNode::TmpfsDir(d) => d.children.wf() && forall|k: Seq<u8>|
            #[trigger] d.children.map().contains_key(k) ==> d.children.map()[k] < len,
        VfsNode::ProcDir(p) => p.version < len,
        _ => true,
    }
}

/// `n` is a new empty node of type `t` with inode number `ino`.
pub open spec fn is_fresh_node(n: VfsNode, t: NodeType, ino: u64) -> bool {
    match t {
        NodeType::File => n matches VfsNode::TmpfsFile(f) && f.ino == ino && f.data@.len() == 0,
        NodeType::Directory => n matches VfsNode::TmpfsDir(d) && d.ino == ino && d.children.wf()
            && d.children.map() == Map::<Seq<u8>, usize>::empty(),
    }
}

/// The inode counter after handing out one number (it wraps around).
pub open spec fn next_ino_after(n: u64) -> u64 {
    if n == u64::MAX {
        0
    } else {
        (n + 1) as u64
    }
}

/// The file system: an arena of nodes, the mount table, and the counter of
/// inode numbers.
pub struct Vfs {
    nodes: Vec<VfsNode>,
    mounts: NameMap,
    next_ino: u64,
}

impl Vfs {
    /// The nodes, by id.
    pub closed spec fn nodes(&self) -> Seq<VfsNode> {
        self.nodes@
    }

    /// The mount table, in path order.
    pub closed spec fn mount_table(&self) -> NameMap {
        self.mounts
    }

    /// The next inode number to hand out.
    pub closed spec fn next_ino(&self) -> u64 {
        self.next_ino
    }

    /// The mount table as a map from paths to nodes.
    pub open spec fn mount_map(&self) -> Map<Seq<u8>, usize> {
        self.mount_table().map()
    }

    /// `id` names a node.
    pub open spec fn valid_id(&self, id: NodeId) -> bool {
        id < self.nodes().len()
    }


    /// The mount table is ordered, its paths are not empty, and every
    /// reference leads to a node.
    pub open spec fn wf(&self) -> bool {
        &&& self.mount_table().wf()
        &&& forall|k: Seq<u8>| #[trigger]
            self.mount_map().contains_key(k) ==> self.valid_id(self.mount_map()[k])
        &&& forall|i: int|
            0 <= i < self.nodes().len() ==> node_ok(#[trigger] self.nodes()[i], self.nodes().len())
    }

    /// Where looking up `name` in node `id` leads.
    pub open spec fn lookup_spec(&self, id: NodeId, name: Seq<u8>) -> Result<NodeId, Errno> {
        match self.nodes()[id as int] {
            VfsNode::TmpfsDir(d) => if d.children.map().contains_key(name) {
                Ok(d.children.map()[name])
            } else {
                Err(Errno::ENOENT)
            },
            VfsNode::ProcDir(p) => if name == version_name() {
                Ok(p.version)
            } else {
                Err(Errno::ENOENT)
            },
            VfsNode::RootDir(_) => if self.mount_map().contains_key(seq![SLASH] + name) {
                Ok(self.mount_map()[seq![SLASH] + name])
            } else {
                Err(Errno::ENOENT)
            },
            _ => Err(Errno::ENOTDIR),
        }
    }

    /// Where following the components `comps` from node `id` leads.
    pub open spec fn walk_spec(&self, id: NodeId, comps: Seq<Seq<u8>>) -> Result<NodeId, Errno>
        decreases comps.len(),
    {
        if comps.len() == 0 {
            Ok(id)
        } else {
            match self.lookup_spec(id, comps[0]) {
                Ok(n) => self.walk_spec(n, comps.drop_first()),
                Err(e) => Err(e),
            }
        }
    }

    /// The node an absolute path names: walk the rest of the path from the
    /// mount that serves it.
    pub open spec fn resolve_spec(&self, path: Seq<u8>) -> Result<NodeId, Errno> {
        let s = self.mount_table().seq();
        if exists|i: int| is_best_mount(s, path, i) {
            let i = choose|i: int| is_best_mount(s, path, i);
            self.walk_spec(s[i].1, path_components(path.subrange(s[i].0.len() as int, path.len() as int)))
        } else {
            Err(Errno::ENOENT)
        }
    }

    /// `r` lists the nodes of `l` with their names.
    pub open spec fn lists(&self, r: Seq<DirEntry>, l: Seq<(Seq<u8>, usize)>) -> bool {
        &&& r.len() == l.len()
        &&& forall|j: int|
            0 <= j < r.len() ==> {
                &&& (#[trigger] r[j]).name@ == l[j].0
                &&& r[j].ino == node_ino(self.nodes()[l[j].1 as int])
                &&& r[j].node_type == node_type_of(self.nodes()[l[j].1 as int])
            }
    }

    /// An empty file system: no nodes, no mounts, inode numbers from 1.
    pub fn new() -> (r: Self)
        ensures
            r.wf(),
            r.nodes() == Seq::<VfsNode>::empty(),
            r.mount_map() == Map::<Seq<u8>, usize>::empty(),
            r.next_ino() == 1,
    {
        Vfs { nodes: Vec::new(), mounts: NameMap::new(), next_ino: 1 }
    }

    /// Hands out the next inode number.
    pub fn alloc_ino(&mut self) -> (r: u64)
        ensures
            r == old(self).next_ino(),
            final(self).next_ino() == next_ino_after(old(self).next_ino()),
            final(self).nodes() == old(self).nodes(),
            final(self).mount_table() == old(self).mount_table(),
            old(self).wf() ==> final(self).wf(),
    {
        let r = self.next_ino;
        self.next_ino = self.next_ino.wrapping_add(1);
        proof {
            if old(self).wf() {
                lemma_wf_frame(*old(self), *self);
            }
        }
        r
    }

    /// Adds a node to the arena.
    fn push_node(&mut self, n: VfsNode) -> (r: NodeId)
        requires
            old(self).wf(),
            old(self).nodes().len() < usize::MAX,
            match n {
                VfsNode::TmpfsDir(d) => d.children.wf() && forall|k: Seq<u8>|
                    #[trigger] d.children.map().contains_key(k) ==> d.children.map()[k] < old(
                    self).nodes().len(),
                VfsNode::ProcDir(p) => p.version < old(self).nodes().len(),
                _ => true,
            },
        ensures
            final(self).wf(),
            r == old(self).nodes().len(),
            final(self).nodes() == old(self).nodes().push(n),
            final(self).mount_table() == old(self).mount_table(),
            final(self).next_ino() == old(self).next_ino(),
    {
        let r = self.nodes.len();
        self.nodes.push(n);
        proof {
            assert(self.mount_map() == old(self).mount_map());
            assert forall|k: Seq<u8>| #[trigger] self.mount_map().contains_key(k) implies self.valid_id(
                self.mount_map()[k],
            ) by {
                assert(old(self).mount_map().contains_key(k));
            }
            assert forall|i: int| 0 <= i < self.nodes().len() implies node_ok(#[trigger] self.nodes()[i], self.nodes().len()) by {
                if i < r {
                    assert(node_ok(old(self).nodes()[i], old(self).nodes().len()));
                }
            }
        }
        r
    }

    /// Maps the mount path `path` (bytes) to `root`.
    fn mount_bytes(&mut self, path: &[u8], root: NodeId)
        requires
            old(self).wf(),
            old(self).valid_id(root),
        ensures
            final(self).wf(),
            final(self).mount_map() == old(self).mount_map().insert(path@, root),
            final(self).nodes() == old(self).nodes(),
            final(self).next_ino() == old(self).next_ino(),
    {
        self.mounts.insert(path, root);
        proof {
            assert forall|k: Seq<u8>| #[trigger] self.mount_map().contains_key(k) implies self.valid_id(
                self.mount_map()[k],
            ) by {
                if k != path@ {
                    assert(old(self).mount_map().contains_key(k));
                }
            }
            assert forall|i: int| 0 <= i < self.nodes().len() implies node_ok(#[trigger] self.nodes()[i], self.nodes().len()) by {
                assert(node_ok(old(self).nodes()[i], old(self).nodes().len()));
            }
        }
    }

    /// Mounts the directory `root` at `path`, replacing what was mounted there.
    pub fn mount(&mut self, path: &str, root: NodeId)
        requires
            old(self).wf(),
            old(self).valid_id(root),
        ensures
            final(self).wf(),
            final(self).mount_map() == old(self).mount_map().insert(path.spec_bytes(), root),
            final(self).nodes() == old(self).nodes(),
            final(self).next_ino() == old(self).next_ino(),
    {
        self.mount_bytes(path.as_bytes(), root);
    }

    /// The inode number of node `id`.
    pub fn ino(&self, id: NodeId) -> (r: u64)
        requires
            self.valid_id(id),
        ensures
            r == node_ino(self.nodes()[id as int]),
    {
        match &self.nodes[id] {
            VfsNode::TmpfsFile(f) => f.ino,
            VfsNode::TmpfsDir(d) => d.ino,
            VfsNode::ProcVersionFile(f) => f.ino,
            VfsNode::ProcDir(d) => d.ino,
            VfsNode::RootDir(d) => d.ino,
        }
    }

    /// Whether node `id` is a file or a directory.
    pub fn node_type(&self, id: NodeId) -> (r: NodeType)
        requires
            self.valid_id(id),
        ensures
            r == node_type_of(self.nodes()[id as int]),
    {
        match &self.nodes[id] {
            VfsNode::TmpfsFile(_) => NodeType::File,
            VfsNode::ProcVersionFile(_) => NodeType::File,
            _ => NodeType::Directory,
        }
    }

    /// The size of node `id`: the length of a file, zero for a directory.
    pub fn size(&self, id: NodeId) -> (r: usize)
        requires
            self.valid_id(id),
        ensures
            r == match self.nodes()[id as int] {
                VfsNode::TmpfsFile(f) => f.data@.len(),
                VfsNode::ProcVersionFile(_) => 13,
                _ => 0,
            },
    {
        match &self.nodes[id] {
            VfsNode::TmpfsFile(f) => f.size(),
            VfsNode::ProcVersionFile(f) => f.size(),
            _ => 0,
        }
    }

    /// Looks up `name` in directory `id`.
    pub fn lookup(&self, id: NodeId, name: &[u8]) -> (r: Result<NodeId, Errno>)
        requires
            self.wf(),
            self.valid_id(id),
        ensures
            r == self.lookup_spec(id, name@),
            r matches Ok(n) ==> self.valid_id(n),
    {
        assert(node_ok(self.nodes()[id as int], self.nodes().len()));
        match &self.nodes[id] {
            VfsNode::TmpfsDir(d) => match d.children.get(name) {
                Some(n) => Ok(n),
                None => Err(Errno::ENOENT),
            },
            VfsNode::ProcDir(p) => {
                let v = version_file_name();
                if crate::name_map::compare_bytes(name, &v) == crate::name_map::ByteOrder::Equal {
                    Ok(p.version)
                } else {
                    Err(Errno::ENOENT)
                }
            },
            VfsNode::RootDir(_) => {
                let mut full: Vec<u8> = Vec::new();
                full.push(SLASH);
                let mut i: usize = 0;
                while i < name.len()
                    invariant
                        i <= name@.len(),
                        full@ == seq![SLASH] + name@.subrange(0, i as int),
                    decreases name@.len() - i,
                {
                    full.push(name[i]);
                    proof {
                        assert(name@.subrange(0, i + 1) =~= name@.subrange(0, i as int).push(name@[i as int]));
                        assert(full@ =~= seq![SLASH] + name@.subrange(0, i + 1));
                    }
                    i = i + 1;
                }
                assert(name@.subrange(0, name@.len() as int) =~= name@);
                match self.mounts.get(full.as_slice()) {
                    Some(n) => Ok(n),
                    None => Err(Errno::ENOENT),
                }
            },
            _ => Err(Errno::ENOTDIR),
        }
    }

    /// Follows the components of `path` from node `id`.
    fn walk(&self, id: NodeId, path: &[u8]) -> (r: Result<NodeId, Errno>)
        requires
            self.wf(),
            self.valid_id(id),
        ensures
            r == self.walk_spec(id, path_components(path@)),
            r matches Ok(n) ==> self.valid_id(n),
    {
        let comps = split_components(path);
        let ghost cs = path_components(path@);
        let mut cur = id;
        let mut i: usize = 0;
        assert(cs.subrange(0, cs.len() as int) =~= cs);
        while i < comps.len()
            invariant
                self.wf(),
                self.valid_id(cur),
                cs == path_components(path@),
                comps@.len() == cs.len(),
                forall|j: int| 0 <= j < cs.len() ==> (#[trigger] comps@[j])@ == cs[j],
                i <= cs.len(),
                self.walk_spec(id, cs) == self.walk_spec(cur, cs.subrange(i as int, cs.len() as int)),
            decreases cs.len() - i,
        {
            let ghost rest = cs.subrange(i as int, cs.len() as int);
            assert(rest[0] == cs[i as int]);
            assert(rest.drop_first() =~= cs.subrange(i + 1, cs.len() as int));
            match self.lookup(cur, comps[i].as_slice()) {
                Ok(n) => {
                    cur = n;
                },
                Err(e) => {
                    return Err(e);
                },
            }
            i = i + 1;
        }
        assert(cs.subrange(i as int, cs.len() as int) =~= Seq::<Seq<u8>>::empty());
        Ok(cur)
    }

    /// The mount that serves `path`: the length of its path and its root.
    fn find_mount(&self, path: &[u8]) -> (r: Result<(usize, NodeId), Errno>)
        requires
            self.wf(),
        ensures
            match r {
                Ok((len, root)) => exists|i: int|
                    is_best_mount(self.mount_table().seq(), path@, i) && len == self.mount_table().seq()[i].0.len()
                        && root == self.mount_table().seq()[i].1,
                Err(e) => e == Errno::ENOENT && forall|i: int|
                    0 <= i < self.mount_table().seq().len() ==> !mount_matches(
                        #[trigger] self.mount_table().seq()[i].0,
                        path@,
                    ),
            },
            r matches Ok((len, root)) ==> self.valid_id(root) && len <= path@.len(),
    {
        let ghost s = self.mount_table().seq();
        let mut best: Option<usize> = None;
        let mut k: usize = 0;
        let n = self.mounts.len();
        while k < n
            invariant
                n == s.len(),
                s == self.mount_table().seq(),
                k <= n,
                match best {
                    Some(b) => b < k && mount_matches(s[b as int].0, path@) && (forall|j: int|
                        0 <= j < b && mount_matches(#[trigger] s[j].0, path@) ==> s[j].0.len()
                            < s[b as int].0.len()) && (forall|j: int|
                        b < j < k && mount_matches(#[trigger] s[j].0, path@) ==> s[j].0.len()
                            <= s[b as int].0.len()),
                    None => forall|j: int| 0 <= j < k ==> !mount_matches(#[trigger] s[j].0, path@),
                },
            decreases n - k,
        {
            let (mp, _node) = self.mounts.entry(k);
            if mount_matches_bytes(mp, path) {
                let better = match best {
                    None => true,
                    Some(b) => {
                        let (bp, _bn) = self.mounts.entry(b);
                        mp.len() > bp.len()
                    },
                };
                if better {
                    best = Some(k);
                }
            }
            k = k + 1;
        }
        match best {
            Some(b) => {
                let (bp, bn) = self.mounts.entry(b);
                proof {
                    lemma_entries_map_index(s, b as int);
                    assert(self.mount_map().contains_key(s[b as int].0));
                    assert(is_best_mount(s, path@, b as int));
                }
                Ok((bp.len(), bn))
            },
            None => Err(Errno::ENOENT),
        }
    }

    /// The node an absolute path names.
    pub fn resolve_path(&self, path: &str) -> (r: Result<NodeId, Errno>)
        requires
            self.wf(),
        ensures
            r == self.resolve_spec(path.spec_bytes()),
            r matches Ok(n) ==> self.valid_id(n),
    {
        self.resolve_bytes(path.as_bytes())
    }

    fn resolve_bytes(&self, p: &[u8]) -> (r: Result<NodeId, Errno>)
        requires
            self.wf(),
        ensures
            r == self.resolve_spec(p@),
            r matches Ok(n) ==> self.valid_id(n),
    {
        let ghost s = self.mount_table().seq();
        match self.find_mount(p) {
            Ok((len, root)) => {
                proof {
                    let i = choose|i: int|
                        is_best_mount(s, p@, i) && len == s[i].0.len() && root == s[i].1;
                    let c = choose|c: int| is_best_mount(s, p@, c);
                    lemma_best_mount_unique(s, p@, i, c);
                }
                let rest = vstd::slice::slice_subrange(p, len, p.len());
                self.walk(root, rest)
            },
            Err(e) => {
                proof {
                    if exists|i: int| is_best_mount(s, p@, i) {
                        let i = choose|i: int| is_best_mount(s, p@, i);
                        assert(!mount_matches(s[i].0, p@));
                    }
                }
                Err(e)
            },
        }
    }

    /// The directory holding the last component of `path`, and that
    /// component's name.
    pub fn resolve_parent(&self, path: &str) -> (r: Result<(NodeId, Vec<u8>), Errno>)
        requires
            self.wf(),
        ensures
            ({
                let p = path.spec_bytes();
                match last_slash(p) {
                    None => r == Err::<(NodeId, Vec<u8>), Errno>(Errno::EINVAL),
                    Some(i) => {
                        let name = p.subrange(i + 1, p.len() as int);
                        let parent = if i == 0 {
                            seq![SLASH]
                        } else {
                            p.subrange(0, i)
                        };
                        if name.len() == 0 {
                            r == Err::<(NodeId, Vec<u8>), Errno>(Errno::EINVAL)
                        } else {
                            match self.resolve_spec(parent) {
                                Ok(n) => r matches Ok((m, v)) && m == n && v@ == name,
                                Err(e) => r == Err::<(NodeId, Vec<u8>), Errno>(e),
                            }
                        }
                    },
                }
            }),
    {
        let p = path.as_bytes();
        proof {
            lemma_last_slash_bounds(p@);
        }
        let last = match rfind_slash(p) {
            Some(i) => i,
            None => {
                return Err(Errno::EINVAL);
            },
        };
        let plen = p.len();
        assert(last < plen);
        let name = vstd::slice::slice_subrange(p, last + 1, plen);
        if name.len() == 0 {
            return Err(Errno::EINVAL);
        }
        let parent = if last == 0 {
            let root: [u8; 1] = [SLASH];
            assert(root@ =~= seq![SLASH]);
            self.resolve_bytes(&root)
        } else {
            self.resolve_bytes(vstd::slice::slice_subrange(p, 0, last))
        };
        match parent {
            Ok(n) => Ok((n, vstd::slice::slice_to_vec(name))),
            Err(e) => Err(e),
        }
    }

    /// Follows `path` from the directory `base`.
    pub fn resolve_relative(&self, base: NodeId, path: &str) -> (r: Result<NodeId, Errno>)
        requires
            self.wf(),
            self.valid_id(base),
        ensures
            r == self.walk_spec(base, path_components(path.spec_bytes())),
            r matches Ok(n) ==> self.valid_id(n),
    {
        self.walk(base, path.as_bytes())
    }

    /// Reads from node `id` at `offset` into `buf`; directories cannot be read.
    pub fn read(&self, id: NodeId, offset: usize, buf: &mut [u8]) -> (r: Result<usize, Errno>)
        requires
            self.valid_id(id),
        ensures
            final(buf)@.len() == old(buf)@.len(),
            match self.nodes()[id as int] {
                VfsNode::TmpfsFile(f) => r matches Ok(n) && n == read_len(
                    f.data@.len(),
                    offset as nat,
                    old(buf)@.len(),
                ) && (forall|j: int| 0 <= j < n ==> final(buf)@[j] == f.data@[offset + j]) && (
                forall|j: int| n <= j < old(buf)@.len() ==> final(buf)@[j] == old(buf)@[j]),
                VfsNode::ProcVersionFile(_) => r matches Ok(n) && n == read_len(
                    crate::procfs::version_text().len(),
                    offset as nat,
                    old(buf)@.len(),
                ) && (forall|j: int|
                    0 <= j < n ==> final(buf)@[j] == crate::procfs::version_text()[offset + j])
                    && (forall|j: int| n <= j < old(buf)@.len() ==> final(buf)@[j] == old(buf)@[j]),
                _ => r == Err::<usize, Errno>(Errno::EISDIR) && final(buf)@ == old(buf)@,
            },
    {
        match &self.nodes[id] {
            VfsNode::TmpfsFile(f) => f.read(offset, buf),
            VfsNode::ProcVersionFile(f) => f.read(offset, buf),
            _ => Err(Errno::EISDIR),
        }
    }

    /// Writes `data` at `offset` into node `id`: files of the in-memory file
    /// system take it, `/proc/version` refuses, directories cannot be written.
    pub fn write(&mut self, id: NodeId, offset: usize, data: &[u8]) -> (r: Result<usize, Errno>)
        requires
            old(self).wf(),
            old(self).valid_id(id),
            offset + data@.len() <= usize::MAX,
        ensures
            final(self).wf(),
            final(self).mount_table() == old(self).mount_table(),
            final(self).next_ino() == old(self).next_ino(),
            final(self).nodes().len() == old(self).nodes().len(),
            forall|k: int|
                0 <= k < old(self).nodes().len() && k != id ==> final(self).nodes()[k] == old(
                self).nodes()[k],
            match old(self).nodes()[id as int] {
                VfsNode::TmpfsFile(f) => {
                    &&& r == Ok::<usize, Errno>(data@.len() as usize)
                    &&& final(self).nodes()[id as int] matches VfsNode::TmpfsFile(g)
                    &&& g.ino == f.ino
                    &&& g.data@ == written(f.data@, offset as nat, data@)
                },
                VfsNode::ProcVersionFile(_) => r == Err::<usize, Errno>(Errno::EACCES) && final(
                    self).nodes() == old(self).nodes(),
                _ => r == Err::<usize, Errno>(Errno::EISDIR) && final(self).nodes() == old(
                    self).nodes(),
            },
    {
        let ghost old_nodes = self.nodes@;
        let r = match &mut self.nodes[id] {
            VfsNode::TmpfsFile(f) => f.write(offset, data),
            VfsNode::ProcVersionFile(f) => f.write(offset, data),
            _ => Err(Errno::EISDIR),
        };
        proof {
            assert forall|i: int| 0 <= i < self.nodes().len() implies node_ok(#[trigger] self.nodes()[i], self.nodes().len()) by {
                assert(node_ok(old_nodes[i], old_nodes.len()));
            }
            lemma_wf_frame(*old(self), *self);
            if !(old_nodes[id as int] is TmpfsFile) {
                assert(self.nodes@ =~= old_nodes);
            }
        }
        r
    }

    /// Empties file `id`; only files of the in-memory file system can be
    /// truncated.
    pub fn truncate(&mut self, id: NodeId) -> (r: Result<(), Errno>)
        requires
            old(self).wf(),
            old(self).valid_id(id),
        ensures
            final(self).wf(),
            final(self).mount_table() == old(self).mount_table(),
            final(self).next_ino() == old(self).next_ino(),
            final(self).nodes().len() == old(self).nodes().len(),
            forall|k: int|
                0 <= k < old(self).nodes().len() && k != id ==> final(self).nodes()[k] == old(
                self).nodes()[k],
            match old(self).nodes()[id as int] {
                VfsNode::TmpfsFile(f) => {
                    &&& r is Ok
                    &&& final(self).nodes()[id as int] matches VfsNode::TmpfsFile(g)
                    &&& g.ino == f.ino
                    &&& g.data@.len() == 0
                },
                _ => r == Err::<(), Errno>(Errno::EISDIR) && final(self).nodes() == old(self).nodes(),
            },
    {
        let ghost old_nodes = self.nodes@;
        let r = match &mut self.nodes[id] {
            VfsNode::TmpfsFile(f) => f.truncate(),
            _ => Err(Errno::EISDIR),
        };
        proof {
            assert forall|i: int| 0 <= i < self.nodes().len() implies node_ok(#[trigger] self.nodes()[i], self.nodes().len()) by {
                assert(node_ok(old_nodes[i], old_nodes.len()));
            }
            lemma_wf_frame(*old(self), *self);
            if !(old_nodes[id as int] is TmpfsFile) {
                assert(self.nodes@ =~= old_nodes);
            }
        }
        r
    }

    /// Creates an empty file or directory called `name` in the in-memory
    /// directory `dir`.
    pub fn create(&mut self, dir: NodeId, name: &[u8], node_type: NodeType) -> (r: Result<NodeId, Errno>)
        requires
            old(self).wf(),
            old(self).valid_id(dir),
            old(self).nodes().len() < usize::MAX,
        ensures
            final(self).wf(),
            final(self).mount_table() == old(self).mount_table(),
            match old(self).nodes()[dir as int] {
                VfsNode::TmpfsDir(d) => if d.children.map().contains_key(name@) {
                    r == Err::<NodeId, Errno>(Errno::EEXIST) && final(self).nodes() == old(
                        self).nodes() && final(self).next_ino() == old(self).next_ino()
                } else {
                    &&& r == Ok::<NodeId, Errno>(old(self).nodes().len() as NodeId)
                    &&& final(self).next_ino() == next_ino_after(old(self).next_ino())
                    &&& final(self).nodes().len() == old(self).nodes().len() + 1
                    &&& is_fresh_node(
                        final(self).nodes()[old(self).nodes().len() as int],
                        node_type,
                        old(self).next_ino(),
                    )
                    &&& final(self).nodes()[dir as int] matches VfsNode::TmpfsDir(e) && e.ino
                        == d.ino && e.children.map() == d.children.map().insert(
                        name@,
                        old(self).nodes().len() as NodeId,
                    )
                    &&& forall|k: int|
                        0 <= k < old(self).nodes().len() && k != dir ==> final(self).nodes()[k]
                            == old(self).nodes()[k]
                },
                _ => r == Err::<NodeId, Errno>(Errno::ENOTDIR) && final(self).nodes() == old(
                    self).nodes() && final(self).next_ino() == old(self).next_ino(),
            },
    {
        let exists = match &self.nodes[dir] {
            VfsNode::TmpfsDir(d) => d.children.contains(name),
            _ => {
                return Err(Errno::ENOTDIR);
            },
        };
        if exists {
            return Err(Errno::EEXIST);
        }
        let ghost before = self.nodes@;
        let id = match node_type {
            NodeType::File => TmpfsFile::new_node(self),
            NodeType::Directory => TmpfsDir::new(self),
        };
        let ghost mid = self.nodes@;
        match &mut self.nodes[dir] {
            VfsNode::TmpfsDir(d) => {
                d.children.insert(name, id);
            },
            _ => {},
        }
        proof {
            assert forall|i: int| 0 <= i < self.nodes().len() implies node_ok(#[trigger] self.nodes()[i], self.nodes().len()) by {
                assert(node_ok(mid[i], mid.len()));
            }
            lemma_wf_frame(*old(self), *self);
        }
        Ok(id)
    }

    /// Removes `name` from the in-memory directory `dir`.
    pub fn unlink(&mut self, dir: NodeId, name: &[u8]) -> (r: Result<(), Errno>)
        requires
            old(self).wf(),
            old(self).valid_id(dir),
        ensures
            final(self).wf(),
            final(self).mount_table() == old(self).mount_table(),
            final(self).next_ino() == old(self).next_ino(),
            final(self).nodes().len() == old(self).nodes().len(),
            forall|k: int|
                0 <= k < old(self).nodes().len() && k != dir ==> final(self).nodes()[k] == old(
                self).nodes()[k],
            match old(self).nodes()[dir as int] {
                VfsNode::TmpfsDir(d) => if d.children.map().contains_key(name@) {
                    &&& r is Ok
                    &&& final(self).nodes()[dir as int] matches VfsNode::TmpfsDir(e)
                    &&& e.ino == d.ino
                    &&& e.children.map() == d.children.map().remove(name@)
                } else {
                    &&& r == Err::<(), Errno>(Errno::ENOENT)
                    &&& final(self).nodes()[dir as int] matches VfsNode::TmpfsDir(e)
                    &&& e.ino == d.ino
                    &&& e.children.map() == d.children.map()
                },
                _ => r == Err::<(), Errno>(Errno::ENOTDIR) && final(self).nodes() == old(self).nodes(),
            },
    {
        let ghost old_nodes = self.nodes@;
        let r = match &mut self.nodes[dir] {
            VfsNode::TmpfsDir(d) => if d.children.remove(name) {
                Ok(())
            } else {
                Err(Errno::ENOENT)
            },
            _ => Err(Errno::ENOTDIR),
        };
        proof {
            assert forall|i: int| 0 <= i < self.nodes().len() implies node_ok(#[trigger] self.nodes()[i], self.nodes().len()) by {
                assert(node_ok(old_nodes[i], old_nodes.len()));
            }
            lemma_wf_frame(*old(self), *self);
            if !(old_nodes[dir as int] is TmpfsDir) {
                assert(self.nodes@ =~= old_nodes);
            }
        }
        r
    }

    /// Builds the listing of the entries `l`.
    fn listing(&self, m: &NameMap, from_root: bool) -> (r: Vec<DirEntry>)
        requires
            self.wf(),
            m.wf(),
            forall|k: Seq<u8>| #[trigger] m.map().contains_key(k) ==> self.valid_id(m.map()[k]),
            from_root ==> forall|k: Seq<u8>| #[trigger] m.map().contains_key(k) ==> k.len() > 0,
        ensures
            self.lists(r@, if from_root { root_listing(m.seq()) } else { m.seq() }),
    {
        let ghost s = m.seq();
        let mut r: Vec<DirEntry> = Vec::new();
        let mut i: usize = 0;
        let n = m.len();
        while i < n
            invariant
                self.wf(),
                n == s.len(),
                s == m.seq(),
                m.wf(),
                forall|k: Seq<u8>| #[trigger] m.map().contains_key(k) ==> self.valid_id(m.map()[k]),
                from_root ==> forall|k: Seq<u8>| #[trigger] m.map().contains_key(k) ==> k.len() > 0,
                i <= n,
                self.lists(
                    r@,
                    if from_root {
                        root_listing(s.subrange(0, i as int))
                    } else {
                        s.subrange(0, i as int)
                    },
                ),
            decreases n - i,
        {
            let (name, id) = m.entry(i);
            proof {
                lemma_entries_map_index(s, i as int);
                assert(m.map().contains_key(name@));
                assert(m.map()[name@] == id);
                assert(s.subrange(0, i + 1).drop_last() =~= s.subrange(0, i as int));
                assert(s.subrange(0, i + 1).last() == s[i as int]);
            }
            let is_root_mount = name.len() == 1 && name[0] == SLASH;
            proof {
                if name@.len() == 1 && name@[0] == SLASH {
                    assert(name@ =~= seq![SLASH]);
                }
                assert(is_root_mount <==> name@ == seq![SLASH]);
            }
            if from_root && is_root_mount {
            } else {
                let entry_name = if from_root {
                    vstd::slice::slice_to_vec(vstd::slice::slice_subrange(name, 1, name.len()))
                } else {
                    vstd::slice::slice_to_vec(name)
                };
                proof {
                    if from_root {
                        assert(name@.subrange(1, name@.len() as int) =~= name@.drop_first());
                    }
                }
                let e = DirEntry { name: entry_name, ino: self.ino(id), node_type: self.node_type(id) };
                r.push(e);
            }
            i = i + 1;
        }
        assert(s.subrange(0, n as int) =~= s);
        r
    }

    /// The entries of directory `id`, in name order.  The root lists each
    /// mount point by its path without the leading slash, so it cannot be
    /// listed while something is mounted at the empty path.
    pub fn readdir(&self, id: NodeId) -> (r: Result<Vec<DirEntry>, Errno>)
        requires
            self.wf(),
            self.valid_id(id),
            self.nodes()[id as int] is RootDir ==> !self.mount_map().contains_key(Seq::<u8>::empty()),
        ensures
            match self.nodes()[id as int] {
                VfsNode::TmpfsDir(d) => r matches Ok(v) && self.lists(v@, d.children.seq()),
                VfsNode::ProcDir(p) => {
                    &&& r matches Ok(v)
                    &&& v@.len() == 1
                    &&& v@[0].name@ == version_name()
                    &&& v@[0].ino == node_ino(self.nodes()[p.version as int])
                    &&& v@[0].node_type == NodeType::File
                },
                VfsNode::RootDir(_) => r matches Ok(v) && self.lists(v@, root_listing(self.mount_table().seq())),
                _ => r == Err::<Vec<DirEntry>, Errno>(Errno::ENOTDIR),
            },
    {
        assert(node_ok(self.nodes()[id as int], self.nodes().len()));
        match &self.nodes[id] {
            VfsNode::TmpfsDir(d) => Ok(self.listing(&d.children, false)),
            VfsNode::ProcDir(p) => {
                let name = version_file_name();
                let e = DirEntry {
                    name: vstd::slice::slice_to_vec(&name),
                    ino: self.ino(p.version),
                    node_type: NodeType::File,
                };
                let mut v: Vec<DirEntry> = Vec::new();
                v.push(e);
                assert(v@[0].name@ == version_name());
                Ok(v)
            },
            VfsNode::RootDir(_) => {
                assert forall|k: Seq<u8>| #[trigger] self.mounts.map().contains_key(k) implies self.valid_id(
                    self.mounts.map()[k],
                ) && k.len() > 0 by {
                    assert(self.mount_map().contains_key(k));
                    if k.len() == 0 {
                        assert(k =~= Seq::<u8>::empty());
                    }
                }
                Ok(self.listing(&self.mounts, true))
            },
            _ => Err(Errno::ENOTDIR),
        }
    }
}

/// After a name is added to an in-memory directory (as `create` does), looking
/// it up there leads to the new node, and every other name leads where it led
/// before.
pub proof fn lemma_lookup_after_create(before: Vfs, after: Vfs, dir: NodeId, name: Seq<u8>, id: NodeId)
    requires
        before.nodes()[dir as int] is TmpfsDir,
        after.nodes()[dir as int] matches VfsNode::TmpfsDir(e) && e.children.map()
            == before.nodes()[dir as int]->TmpfsDir_0.children.map().insert(name, id),
    ensures
        after.lookup_spec(dir, name) == Ok::<NodeId, Errno>(id),
        forall|other: Seq<u8>|
            other != name ==> #[trigger] after.lookup_spec(dir, other) == before.lookup_spec(dir, other),
{
}

/// After a name is removed from an in-memory directory (as `unlink` does),
/// looking it up there fails with `ENOENT`, and every other name leads where
/// it led before.
pub proof fn lemma_lookup_after_unlink(before: Vfs, after: Vfs, dir: NodeId, name: Seq<u8>)
    requires
        before.nodes()[dir as int] is TmpfsDir,
        after.nodes()[dir as int] matches VfsNode::TmpfsDir(e) && e.children.map()
            == before.nodes()[dir as int]->TmpfsDir_0.children.map().remove(name),
    ensures
        after.lookup_spec(dir, name) == Err::<NodeId, Errno>(Errno::ENOENT),
        forall|other: Seq<u8>|
            other != name ==> #[trigger] after.lookup_spec(dir, other) == before.lookup_spec(dir, other),
{
}

/// A file system whose mount table is unchanged, whose arena did not
/// shrink and whose nodes hold valid references is still well formed.
proof fn lemma_wf_frame(a: Vfs, b: Vfs)
    requires
        a.wf(),
        b.mount_table() == a.mount_table(),
        b.nodes().len() >= a.nodes().len(),
        forall|i: int| 0 <= i < b.nodes().len() ==> node_ok(#[trigger] b.nodes()[i], b.nodes().len()),
    ensures
        b.wf(),
{
    assert forall|k: Seq<u8>| #[trigger] b.mount_map().contains_key(k) implies b.valid_id(
        b.mount_map()[k],
    ) by {
        assert(a.mount_map().contains_key(k));
    }
}

proof fn lemma_best_mount_unique(s: Seq<(Seq<u8>, usize)>, path: Seq<u8>, i: int, k: int)
    requires
        is_best_mount(s, path, i),
        is_best_mount(s, path, k),
    ensures
        i == k,
{
    if i < k {
        assert(mount_matches(s[i].0, path));
    } else if k < i {
        assert(mount_matches(s[k].0, path));
    }
}

/// Whether the mount path `mp` covers `path`.
fn mount_matches_bytes(mp: &[u8], path: &[u8]) -> (r: bool)
    ensures
        r == mount_matches(mp@, path@),
{
    if mp.len() > path.len() {
        return false;
    }
    let mut i: usize = 0;
    while i < mp.len()
        invariant
            mp@.len() <= path@.len(),
            i <= mp@.len(),
            forall|j: int| 0 <= j < i ==> mp@[j] == path@[j],
        decreases mp@.len() - i,
    {
        if mp[i] != path[i] {
            proof {
                assert(path@.subrange(0, mp@.len() as int)[i as int] != mp@[i as int]);
                if path@ == mp@ {
                }
            }
            return false;
        }
        i = i + 1;
    }
    assert(path@.subrange(0, mp@.len() as int) =~= mp@);
    if mp.len() == path.len() {
        assert(path@ =~= mp@);
        true
    } else {
        path[mp.len()] == SLASH
    }
}

/// The position of the last `/` of `p`.
fn rfind_slash(p: &[u8]) -> (r: Option<usize>)
    ensures
        match last_slash(p@) {
            Some(i) => r == Some(i as usize),
            None => r is None,
        },
        r matches Some(i) ==> i < p@.len(),
{
    let mut k: usize = p.len();
    assert(p@.subrange(0, p@.len() as int) =~= p@);
    while k > 0
        invariant
            k <= p@.len(),
            last_slash(p@) == last_slash(p@.subrange(0, k as int)),
        decreases k,
    {
        let ghost q = p@.subrange(0, k as int);
        assert(q.drop_last() =~= p@.subrange(0, k - 1));
        if p[k - 1] == SLASH {
            return Some(k - 1);
        }
        k = k - 1;
    }
    assert(p@.subrange(0, 0) =~= Seq::<u8>::empty());
    None
}

proof fn lemma_last_slash_bounds(p: Seq<u8>)
    ensures
        last_slash(p) matches Some(i) ==> 0 <= i < p.len() && p[i] == SLASH,
    decreases p.len(),
{
    if p.len() > 0 && p.last() != SLASH {
        lemma_last_slash_bounds(p.drop_last());
    }
}

/// The non-empty parts of `path` between slashes.
fn split_components(path: &[u8]) -> (r: Vec<Vec<u8>>)
    ensures
        r@.len() == path_components(path@).len(),
        forall|j: int| 0 <= j < r@.len() ==> (#[trigger] r@[j])@ == path_components(path@)[j],
{
    let mut done: Vec<Vec<u8>> = Vec::new();
    let mut cur: Vec<u8> = Vec::new();
    let mut i: usize = 0;
    while i < path.len()
        invariant
            i <= path@.len(),
            done@.len() == split_state(path@.subrange(0, i as int)).0.len(),
            forall|j: int|
                0 <= j < done@.len() ==> (#[trigger] done@[j])@ == split_state(
                    path@.subrange(0, i as int),
                ).0[j],
            cur@ == split_state(path@.subrange(0, i as int)).1,
        decreases path@.len() - i,
    {
        let ghost q = path@.subrange(0, i + 1);
        assert(q.drop_last() =~= path@.subrange(0, i as int));
        assert(q.last() == path@[i as int]);
        let b = path[i];
        if b == SLASH {
            if cur.len() > 0 {
                let c = cur;
                done.push(c);
                cur = Vec::new();
                assert(cur@ =~= Seq::<u8>::empty());
            }
        } else {
            cur.push(b);
        }
        i = i + 1;
    }
    assert(path@.subrange(0, path@.len() as int) =~= path@);
    if cur.len() > 0 {
        done.push(cur);
    }
    done
}

/// Mounts a fresh in-memory file system on `/tmp` and the process
/// information directory on `/proc`.
pub fn init(vfs: &mut Vfs)
    requires
        old(vfs).wf(),
        old(vfs).nodes().len() + 3 < usize::MAX,
    ensures
        final(vfs).wf(),
        final(vfs).nodes().len() == old(vfs).nodes().len() + 3,
        final(vfs).mount_map() == old(vfs).mount_map().insert(
            seq![47u8, 116u8, 109u8, 112u8],
            old(vfs).nodes().len() as NodeId,
        ).insert(seq![47u8, 112u8, 114u8, 111u8, 99u8], (old(vfs).nodes().len() + 2) as NodeId),
{
    let tmp = TmpfsDir::new(vfs);
    let tmp_path: [u8; 4] = [47u8, 116u8, 109u8, 112u8];
    assert(tmp_path@ =~= seq![47u8, 116u8, 109u8, 112u8]);
    vfs.mount_bytes(&tmp_path, tmp);
    let proc_dir = ProcDir::new(vfs);
    let proc_path: [u8; 5] = [47u8, 112u8, 114u8, 111u8, 99u8];
    assert(proc_path@ =~= seq![47u8, 112u8, 114u8, 111u8, 99u8]);
    vfs.mount_bytes(&proc_path, proc_dir);
}

impl TmpfsFile {
    /// Adds an empty file with the next inode number to the file system.
    pub fn new_node(vfs: &mut Vfs) -> (r: NodeId)
        requires
            old(vfs).wf(),
            old(vfs).nodes().len() < usize::MAX,
        ensures
            final(vfs).wf(),
            r == old(vfs).nodes().len(),
            final(vfs).nodes().len() == old(vfs).nodes().len() + 1,
            forall|k: int| 0 <= k < old(vfs).nodes().len() ==> final(vfs).nodes()[k] == old(vfs).nodes()[k],
            is_fresh_node(final(vfs).nodes()[r as int], NodeType::File, old(vfs).next_ino()),
            final(vfs).next_ino() == next_ino_after(old(vfs).next_ino()),
            final(vfs).mount_table() == old(vfs).mount_table(),
    {
        let ino = vfs.alloc_ino();
        vfs.push_node(VfsNode::TmpfsFile(TmpfsFile::new(ino)))
    }
}

impl TmpfsDir {
    /// Adds an empty directory with the next inode number to the file system.
    pub fn new(vfs: &mut Vfs) -> (r: NodeId)
        requires
            old(vfs).wf(),
            old(vfs).nodes().len() < usize::MAX,
        ensures
            final(vfs).wf(),
            r == old(vfs).nodes().len(),
            final(vfs).nodes().len() == old(vfs).nodes().len() + 1,
            forall|k: int| 0 <= k < old(vfs).nodes().len() ==> final(vfs).nodes()[k] == old(vfs).nodes()[k],
            is_fresh_node(final(vfs).nodes()[r as int], NodeType::Directory, old(vfs).next_ino()),
            final(vfs).next_ino() == next_ino_after(old(vfs).next_ino()),
            final(vfs).mount_table() == old(vfs).mount_table(),
    {
        let ino = vfs.alloc_ino();
        vfs.push_node(VfsNode::TmpfsDir(TmpfsDir { ino, children: NameMap::new() }))
    }
}

impl ProcDir {
    /// Adds `/proc` and its `version` file to the file system; the file gets
    /// its inode number first.
    pub fn new(vfs: &mut Vfs) -> (r: NodeId)
        requires
            old(vfs).wf(),
            old(vfs).nodes().len() + 1 < usize::MAX,
        ensures
            final(vfs).wf(),
            r == old(vfs).nodes().len() + 1,
            final(vfs).nodes().len() == old(vfs).nodes().len() + 2,
            forall|k: int| 0 <= k < old(vfs).nodes().len() ==> final(vfs).nodes()[k] == old(vfs).nodes()[k],
            final(vfs).nodes()[old(vfs).nodes().len() as int] matches VfsNode::ProcVersionFile(f)
                && f.ino == old(vfs).next_ino(),
            final(vfs).nodes()[r as int] matches VfsNode::ProcDir(d) && d.version == old(
                vfs).nodes().len() && d.ino == next_ino_after(old(vfs).next_ino()),
            final(vfs).next_ino() == next_ino_after(next_ino_after(old(vfs).next_ino())),
            final(vfs).mount_table() == old(vfs).mount_table(),
    {
        let vino = vfs.alloc_ino();
        let version = vfs.push_node(VfsNode::ProcVersionFile(ProcVersionFile { ino: vino }));
        let ino = vfs.alloc_ino();
        vfs.push_node(VfsNode::ProcDir(ProcDir { ino, version }))
    }
}

impl RootDir {
    /// Adds a root directory with the next inode number to the file system.
    pub fn new(vfs: &mut Vfs) -> (r: NodeId)
        requires
            old(vfs).wf(),
            old(vfs).nodes().len() < usize::MAX,
        ensures
            final(vfs).wf(),
            r == old(vfs).nodes().len(),
            final(vfs).nodes() == old(vfs).nodes().push(
                VfsNode::RootDir(RootDir { ino: old(vfs).next_ino() }),
            ),
            final(vfs).next_ino() == next_ino_after(old(vfs).next_ino()),
            final(vfs).mount_table() == old(vfs).mount_table(),
    {
        let ino = vfs.alloc_ino();
        vfs.push_node(VfsNode::RootDir(RootDir { ino }))
    }
}

} // verus!
