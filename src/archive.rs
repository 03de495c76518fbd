use vstd::prelude::*;

verus! {

#[verifier::external_type_specification]
#[verifier::external_body]
pub struct ExZim(zim::Zim);

/// The byte that separates a request path from the server root.
pub const SLASH: u8 = 0x2f;

/// How many redirects are followed before a chain is taken for a cycle.
pub const MAX_REDIRECT_HOPS: u32 = 8;

/// Where an entry of the archive leads.
#[derive(Clone, Copy, Debug, PartialEq, Eq, Structural)]
pub enum Target {
    /// To the entry at this position of the URL-ordered list.
    Redirect(u32),
    /// To the blob with this number in the cluster with this number.
    Blob(u32, u32),
    /// Nowhere: a link target or a deleted entry.
    Nothing,
}

/// One entry of the archive: its URL path, as bytes, and its target.
#[derive(Clone, Debug)]
pub struct Entry {
    pub url: Vec<u8>,
    pub target: Target,
}

/// The entries of an archive in URL order. A position whose entry could not
/// be read holds `None`, so that the positions that redirects name stay right.
pub struct Index {
    pub entries: Vec<Option<Entry>>,
}

/// The request path `request` (with its leading slash) names the URL `url`.
pub open spec fn names(url: Seq<u8>, request: Seq<u8>) -> bool {
    &&& request.len() >= 1
    &&& request[0] == SLASH
    &&& request.subrange(1, request.len() as int) == url
}

/// The entry at position `i` exists and `request` names its URL.
pub open spec fn matches_at(entries: Seq<Option<Entry>>, i: int, request: Seq<u8>) -> bool {
    match entries[i] {
        Some(e) => names(e.url@, request),
        None => false,
    }
}

/// `i` is the first position whose entry `request` names.
pub open spec fn is_first_match(entries: Seq<Option<Entry>>, i: int, request: Seq<u8>) -> bool {
    &&& 0 <= i < entries.len()
    &&& matches_at(entries, i, request)
    &&& forall|j: int| 0 <= j < i ==> !matches_at(entries, j, request)
}

/// No entry is named by `request`.
pub open spec fn no_match(entries: Seq<Option<Entry>>, request: Seq<u8>) -> bool {
    forall|j: int| 0 <= j < entries.len() ==> !matches_at(entries, j, request)
}

/// The content block that the entry at position `i` leads to, following at
/// most `hops` redirects.
pub open spec fn follow(entries: Seq<Option<Entry>>, i: int, hops: nat) -> Option<(u32, u32)>
    decreases hops,
{
    if 0 <= i < entries.len() {
        match entries[i] {
            Some(e) => match e.target {
                Target::Blob(c, b) => Some((c, b)),
                Target::Redirect(j) => if hops == 0 {
                    None
                } else {
                    follow(entries, j as int, (hops - 1) as nat)
                },
                Target::Nothing => None,
            },
            None => None,
        }
    } else {
        None
    }
}

/// The content block that `request` resolves to: that of the first entry it
/// names, with redirects followed; `None` where no entry is named or the
/// chain ends nowhere.
pub open spec fn resolves_to(entries: Seq<Option<Entry>>, request: Seq<u8>) -> Option<(u32, u32)> {
    if exists|i: int| is_first_match(entries, i, request) {
        follow(entries, choose|i: int| is_first_match(entries, i, request), MAX_REDIRECT_HOPS as nat)
    } else {
        None
    }
}

/// Two first matches are the same position.
pub proof fn lemma_first_match_unique(entries: Seq<Option<Entry>>, i: int, k: int, request: Seq<u8>)
    requires
        is_first_match(entries, i, request),
        is_first_match(entries, k, request),
    ensures
        i == k,
{
    if i < k {
        assert(!matches_at(entries, i, request));
    } else if k < i {
        assert(!matches_at(entries, k, request));
    }
}

/// Whether the request path `request` names the URL `url`.
pub fn request_names(url: &Vec<u8>, request: &[u8]) -> (r: bool)
    ensures
        r == names(url@, request@),
{
    if request.len() == 0 || request[0] != SLASH || request.len() - 1 != url.len() {
        return false;
    }
    let mut k: usize = 0;
    while k < url.len()
        invariant
            request@.len() == url@.len() + 1,
            request@[0] == SLASH,
            k <= url@.len(),
            forall|t: int| 0 <= t < k ==> request@[t + 1] == url@[t],
        decreases url@.len() - k,
    {
        if request[k + 1] != url[k] {
            assert(request@.subrange(1, request@.len() as int)[k as int] != url@[k as int]);
            return false;
        }
        k = k + 1;
    }
    assert(request@.subrange(1, request@.len() as int) =~= url@);
    true
}

/// The number of entries of an opened archive: the header field
/// `article_count`, read once when the archive is opened.
pub uninterp spec fn url_entry_count(z: zim::Zim) -> u32;

/// Relies on the header field `article_count` of zim::Zim: the number of
/// entries in the URL-ordered list that zim::Zim::get_by_url_index reads.
#[verifier::external_body]
fn entry_count(zim: &zim::Zim) -> (r: u32)
    ensures
        r == url_entry_count(*zim),
{
    zim.header.article_count
}

/// Relies on zim::Zim::get_by_url_index: the entry at position `idx` of the
/// URL-ordered list, with its URL and target; `None` where it cannot be read.
#[verifier::external_body]
fn entry_at(zim: &zim::Zim, idx: u32) -> Option<Entry> {
    match zim.get_by_url_index(idx) {
        Ok(e) => Some(Entry {
            url: e.url.into_bytes(),
            target: match e.target {
                Some(zim::Target::Redirect(j)) => Target::Redirect(j),
                Some(zim::Target::Cluster(c, b)) => Target::Blob(c, b),
                None => Target::Nothing,
            },
        }),
        Err(_) => None,
    }
}

/// Relies on zim::Zim::get_cluster, zim::Cluster::read and
/// zim::ClusterGuard::blob: the decompressed bytes of blob `blob` of cluster
/// `cluster`; `None` where the archive has no such block or cannot read it.
#[verifier::external_body]
fn read_blob(zim: &zim::Zim, cluster: u32, blob: u32) -> Option<Vec<u8>> {
    let c = match zim.get_cluster(cluster) {
        Ok(c) => c,
        Err(_) => return None,
    };
    let guard = match c.read() {
        Ok(g) => g,
        Err(_) => return None,
    };
    let r = match guard.blob(blob) {
        Ok(b) => Some(b.to_vec()),
        Err(_) => None,
    };
    r
}

/// An opened archive with the index of its entries, built once and only read
/// afterwards, so that any number of workers can share it.
pub struct Archive {
    zim: zim::Zim,
    index: Index,
}

impl Index {
    /// Reads every entry of `zim` in URL order, one position each.
    pub fn load(zim: &zim::Zim) -> (r: Index)
        ensures
            r.entries@.len() == url_entry_count(*zim),
    {
        let n = entry_count(zim);
        let mut entries: Vec<Option<Entry>> = Vec::new();
        let mut i: u32 = 0;
        while i < n
            invariant
                i <= n,
                entries@.len() == i,
            decreases n - i,
        {
            entries.push(entry_at(zim, i));
            i = i + 1;
        }
        Index { entries }
    }
}

impl Archive {
    /// The index holds one position for each entry of the archive.
    #[verifier::type_invariant]
    spec fn indexes_every_entry(self) -> bool {
        self.index.entries@.len() == url_entry_count(self.zim)
    }

    /// The opened archive.
    pub closed spec fn archive(self) -> zim::Zim {
        self.zim
    }

    /// The entries of the index, in URL order.
    pub closed spec fn entries(self) -> Seq<Option<Entry>> {
        self.index.entries@
    }

    /// Takes the opened archive and indexes its entries.
    pub fn new(zim: zim::Zim) -> (r: Archive)
        ensures
            r.archive() == zim,
            r.entries().len() == url_entry_count(zim),
    {
        let index = Index::load(&zim);
        Archive { zim, index }
    }

    /// The index of the archive's entries, one position for each entry.
    pub fn index(&self) -> (r: &Index)
        ensures
            r.entries@ == self.entries(),
            r.entries@.len() == url_entry_count(self.archive()),
    {
        proof {
            use_type_invariant(self);
        }
        &self.index
    }

    /// The bytes of the content block at `cluster`, `blob`; `None` where the
    /// archive cannot give them.
    pub fn content(&self, cluster: u32, blob: u32) -> Option<Vec<u8>> {
        read_blob(&self.zim, cluster, blob)
    }
}

impl Index {
    /// The position of the first entry that `request` names, if any.
    pub fn find(&self, request: &[u8]) -> (r: Option<usize>)
        ensures
            match r {
                Some(i) => is_first_match(self.entries@, i as int, request@),
                None => no_match(self.entries@, request@),
            },
    {
        let mut i: usize = 0;
        while i < self.entries.len()
            invariant
                i <= self.entries@.len(),
                forall|j: int| 0 <= j < i ==> !matches_at(self.entries@, j, request@),
            decreases self.entries@.len() - i,
        {
            match &self.entries[i] {
                Some(e) => {
                    if request_names(&e.url, request) {
                        return Some(i);
                    }
                },
                None => {},
            }
            i = i + 1;
        }
        None
    }

    /// The content block that the entry at position `i` leads to, following
    /// at most `MAX_REDIRECT_HOPS` redirects.
    pub fn follow_from(&self, i: usize) -> (r: Option<(u32, u32)>)
        ensures
            r == follow(self.entries@, i as int, MAX_REDIRECT_HOPS as nat),
    {
        let mut at: usize = i;
        let mut hops: u32 = MAX_REDIRECT_HOPS;
        loop
            invariant
                follow(self.entries@, at as int, hops as nat) == follow(
                    self.entries@,
                    i as int,
                    MAX_REDIRECT_HOPS as nat,
                ),
            decreases hops,
        {
            if at >= self.entries.len() {
                return None;
            }
            match &self.entries[at] {
                None => {
                    return None;
                },
                Some(e) => match e.target {
                    Target::Blob(c, b) => {
                        return Some((c, b));
                    },
                    Target::Nothing => {
                        return None;
                    },
                    Target::Redirect(j) => {
                        if hops == 0 {
                            return None;
                        }
                        at = j as usize;
                        hops = hops - 1;
                    },
                },
            }
        }
    }

    /// The content block that `request` resolves to: that of the first entry
    /// whose URL it names, with redirects followed to a content entry.
    pub fn resolve(&self, request: &[u8]) -> (r: Option<(u32, u32)>)
        ensures
            r == resolves_to(self.entries@, request@),
    {
        match self.find(request) {
            Some(i) => {
                let r = self.follow_from(i);
                proof {
                    let k = choose|k: int| is_first_match(self.entries@, k, request@);
                    lemma_first_match_unique(self.entries@, i as int, k, request@);
                }
                r
            },
            None => {
                assert(!exists|k: int| is_first_match(self.entries@, k, request@)) by {
                    if exists|k: int| is_first_match(self.entries@, k, request@) {
                        let k = choose|k: int| is_first_match(self.entries@, k, request@);
                        assert(!matches_at(self.entries@, k, request@));
                    }
                }
                None
            },
        }
    }
}

} // verus!
