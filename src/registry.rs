//! Paper records: their bounds, the admission check, and the keyed store.
use crate::config::{Config, Error};
use crate::hashing::{hash_eq, keccak, keccak_256, scale_bytes, scale_encode, H256};
use vstd::prelude::*;

verus! {

/// A paper's metadata as stored.
#[derive(Clone, Debug, PartialEq, Eq)]
pub struct PaperMetadata {
    pub title: Vec<u8>,
    pub authors: Vec<u8>,
    pub abstract_text: Vec<u8>,
    pub ipfs_url: Vec<u8>,
    pub vector: Vec<u8>,
    pub keywords: Vec<Vec<u8>>,
}

/// The contents of a paper record.
pub struct PaperView {
    pub title: Seq<u8>,
    pub authors: Seq<u8>,
    pub abstract_text: Seq<u8>,
    pub ipfs_url: Seq<u8>,
    pub vector: Seq<u8>,
    pub keywords: Seq<Seq<u8>>,
}

/// The byte contents of a list of byte strings.
pub open spec fn bytes_list(v: Seq<Vec<u8>>) -> Seq<Seq<u8>> {
    v.map_values(|k: Vec<u8>| k@)
}

/// The record made of the given fields.
pub open spec fn paper_of(
    title: Seq<u8>,
    authors: Seq<u8>,
    abstract_text: Seq<u8>,
    ipfs_url: Seq<u8>,
    vector: Seq<u8>,
    keywords: Seq<Vec<u8>>,
) -> PaperView {
    PaperView { title, authors, abstract_text, ipfs_url, vector, keywords: bytes_list(keywords) }
}

impl View for PaperMetadata {
    type V = PaperView;

    open spec fn view(&self) -> PaperView {
        paper_of(
            self.title@,
            self.authors@,
            self.abstract_text@,
            self.ipfs_url@,
            self.vector@,
            self.keywords@,
        )
    }
}

/// The first bound that `p` breaks, in checking order, or `None` when it fits.
pub open spec fn registration_error(c: Config, p: PaperView) -> Option<Error> {
    if p.title.len() > c.max_title_length {
        Some(Error::TitleTooLong)
    } else if p.authors.len() > c.max_authors_length {
        Some(Error::AuthorsTooLong)
    } else if p.abstract_text.len() > c.max_abstract_length {
        Some(Error::AbstractTooLong)
    } else if p.ipfs_url.len() > c.max_ipfs_url_length {
        Some(Error::IpfsUrlTooLong)
    } else if p.vector.len() > c.max_vector_length {
        Some(Error::VectorTooLong)
    } else if exists|i: int| 0 <= i < p.keywords.len() && p.keywords[i].len() > c.max_title_length {
        Some(Error::TitleTooLong)
    } else if p.keywords.len() > c.max_keywords {
        Some(Error::TooManyKeywords)
    } else {
        None
    }
}

/// Every field of `p` is within its bound.
pub open spec fn fits(c: Config, p: PaperView) -> bool {
    &&& p.title.len() <= c.max_title_length
    &&& p.authors.len() <= c.max_authors_length
    &&& p.abstract_text.len() <= c.max_abstract_length
    &&& p.ipfs_url.len() <= c.max_ipfs_url_length
    &&& p.vector.len() <= c.max_vector_length
    &&& p.keywords.len() <= c.max_keywords
    &&& forall|i: int| 0 <= i < p.keywords.len() ==> p.keywords[i].len() <= c.max_title_length
}

/// The registry key of a title: the hash of its SCALE encoding.
pub open spec fn paper_key(title: Seq<u8>) -> Seq<u8> {
    keccak_256(scale_bytes(title))
}

/// Checks every bound, in order title, authors, abstract, locator, vector, each
/// keyword, keyword count, and builds the record when all hold.
pub fn check_paper(
    config: &Config,
    title: Vec<u8>,
    authors: Vec<u8>,
    abstract_text: Vec<u8>,
    ipfs_url: Vec<u8>,
    vector: Vec<u8>,
    keywords: Vec<Vec<u8>>,
) -> (r: Result<PaperMetadata, Error>)
    ensures
        ({
            let p = paper_of(title@, authors@, abstract_text@, ipfs_url@, vector@, keywords@);
            match registration_error(*config, p) {
                Some(e) => r == Err::<PaperMetadata, Error>(e),
                None => r matches Ok(m) && m@ == p,
            }
        }),
{
    let ghost p = paper_of(title@, authors@, abstract_text@, ipfs_url@, vector@, keywords@);
    if title.len() > config.max_title_length as usize {
        return Err(Error::TitleTooLong);
    }
    if authors.len() > config.max_authors_length as usize {
        return Err(Error::AuthorsTooLong);
    }
    if abstract_text.len() > config.max_abstract_length as usize {
        return Err(Error::AbstractTooLong);
    }
    if ipfs_url.len() > config.max_ipfs_url_length as usize {
        return Err(Error::IpfsUrlTooLong);
    }
    if vector.len() > config.max_vector_length as usize {
        return Err(Error::VectorTooLong);
    }
    let mut i: usize = 0;
    while i < keywords.len()
        invariant
            i <= keywords@.len(),
            p == paper_of(title@, authors@, abstract_text@, ipfs_url@, vector@, keywords@),
            title@.len() <= config.max_title_length,
            authors@.len() <= config.max_authors_length,
            abstract_text@.len() <= config.max_abstract_length,
            ipfs_url@.len() <= config.max_ipfs_url_length,
            vector@.len() <= config.max_vector_length,
            forall|j: int| 0 <= j < i ==> p.keywords[j].len() <= config.max_title_length,
        decreases keywords@.len() - i,
    {
        if keywords[i].len() > config.max_title_length as usize {
            assert(p.keywords[i as int] == keywords@[i as int]@);
            assert(exists|j: int|
                0 <= j < p.keywords.len() && p.keywords[j].len() > config.max_title_length);
            return Err(Error::TitleTooLong);
        }
        i = i + 1;
    }
    if keywords.len() > config.max_keywords as usize {
        return Err(Error::TooManyKeywords);
    }
    Ok(PaperMetadata { title, authors, abstract_text, ipfs_url, vector, keywords })
}

/// The registry key of `title`.
pub fn title_key(title: &Vec<u8>) -> (r: H256)
    requires
        title@.len() <= u32::MAX,
    ensures
        r@ == paper_key(title@),
{
    let encoded = scale_encode(title);
    keccak(&encoded)
}

/// No key occurs twice among the entries.
pub open spec fn keys_unique(entries: Seq<(H256, PaperMetadata)>) -> bool {
    forall|i: int, j: int|
        0 <= i < j < entries.len() ==> #[trigger] entries[i].0@ != #[trigger] entries[j].0@
}

/// The key-to-record map that the entries hold, later entries taking precedence.
pub open spec fn entries_map(entries: Seq<(H256, PaperMetadata)>) -> Map<Seq<u8>, PaperView>
    decreases entries.len(),
{
    if entries.len() == 0 {
        Map::empty()
    } else {
        entries_map(entries.drop_last()).insert(entries.last().0@, entries.last().1@)
    }
}

/// With unique keys, the map holds exactly the entries' keys, each bound to its record.
pub proof fn lemma_entries_map(entries: Seq<(H256, PaperMetadata)>)
    requires
        keys_unique(entries),
    ensures
        forall|k: Seq<u8>|
            #[trigger] entries_map(entries).contains_key(k) <==> exists|i: int|
                0 <= i < entries.len() && entries[i].0@ == k,
        forall|i: int|
            0 <= i < entries.len() ==> #[trigger] entries_map(entries)[entries[i].0@]
                == entries[i].1@,
    decreases entries.len(),
{
    if entries.len() > 0 {
        let rest = entries.drop_last();
        lemma_entries_map(rest);
        let n = entries.len() - 1;
        assert forall|k: Seq<u8>|
            #[trigger] entries_map(entries).contains_key(k) <==> exists|i: int|
                0 <= i < entries.len() && entries[i].0@ == k by {
            if entries_map(rest).contains_key(k) {
                assert(exists|i: int| 0 <= i < rest.len() && rest[i].0@ == k);
                let i = choose|i: int| 0 <= i < rest.len() && rest[i].0@ == k;
                assert(entries[i].0@ == k);
            }
            if exists|i: int| 0 <= i < entries.len() && entries[i].0@ == k {
                let i = choose|i: int| 0 <= i < entries.len() && entries[i].0@ == k;
                if i < n {
                    assert(rest[i].0@ == k);
                }
            }
        }
        assert forall|i: int| 0 <= i < entries.len() implies #[trigger] entries_map(
            entries,
        )[entries[i].0@] == entries[i].1@ by {
            if i < n {
                assert(rest[i] == entries[i]);
                assert(entries[i].0@ != entries[n].0@);
                assert(entries_map(rest)[rest[i].0@] == rest[i].1@);
            }
        }
    }
}

/// Replacing the record of an existing key keeps the keys unique and rebinds that key.
pub proof fn lemma_entries_update(
    entries: Seq<(H256, PaperMetadata)>,
    i: int,
    key: H256,
    paper: PaperMetadata,
)
    requires
        keys_unique(entries),
        0 <= i < entries.len(),
        entries[i].0@ == key@,
    ensures
        keys_unique(entries.update(i, (key, paper))),
        entries_map(entries.update(i, (key, paper))) == entries_map(entries).insert(
            key@,
            paper@,
        ),
    decreases entries.len(),
{
    let updated = entries.update(i, (key, paper));
    let n = entries.len() - 1;
    assert forall|a: int, b: int| 0 <= a < b < updated.len() implies #[trigger] updated[a].0@
        != #[trigger] updated[b].0@ by {
        assert(entries[a].0@ != entries[b].0@);
    }
    let rest = entries.drop_last();
    if i == n {
        assert(updated.drop_last() =~= rest);
        assert(entries_map(updated) =~= entries_map(entries).insert(key@, paper@));
    } else {
        lemma_entries_update(rest, i, key, paper);
        assert(updated.drop_last() =~= rest.update(i, (key, paper)));
        assert(entries[i].0@ != entries[n].0@);
        assert(entries_map(updated) =~= entries_map(entries).insert(key@, paper@));
    }
}

/// Adding an entry under a new key keeps the keys unique and binds that key.
pub proof fn lemma_entries_push(
    entries: Seq<(H256, PaperMetadata)>,
    key: H256,
    paper: PaperMetadata,
)
    requires
        keys_unique(entries),
        forall|i: int| 0 <= i < entries.len() ==> entries[i].0@ != key@,
    ensures
        keys_unique(entries.push((key, paper))),
        entries_map(entries.push((key, paper))) == entries_map(entries).insert(key@, paper@),
{
    assert(entries.push((key, paper)).drop_last() =~= entries);
}

/// Paper records keyed by hash, each key held once.
pub struct PaperRegistry {
    entries: Vec<(H256, PaperMetadata)>,
}

impl View for PaperRegistry {
    type V = Map<Seq<u8>, PaperView>;

    closed spec fn view(&self) -> Map<Seq<u8>, PaperView> {
        entries_map(self.entries@)
    }
}

impl PaperRegistry {
    /// The registry's internal invariant.
    pub closed spec fn wf(&self) -> bool {
        keys_unique(self.entries@)
    }

    /// Every record in the registry fits the bounds of `c`.
    pub open spec fn all_fit(&self, c: Config) -> bool {
        forall|k: Seq<u8>| #[trigger] self@.contains_key(k) ==> fits(c, self@[k])
    }

    /// An empty registry.
    pub fn new() -> (r: Self)
        ensures
            r.wf(),
            r@ == Map::<Seq<u8>, PaperView>::empty(),
    {
        PaperRegistry { entries: Vec::new() }
    }

    /// Position of the entry with this key, if any.
    fn position(&self, key: &H256) -> (r: Option<usize>)
        ensures
            match r {
                Some(i) => i < self.entries@.len() && self.entries@[i as int].0@ == key@,
                None => forall|i: int|
                    0 <= i < self.entries@.len() ==> self.entries@[i].0@ != key@,
            },
    {
        let mut i: usize = 0;
        while i < self.entries.len()
            invariant
                i <= self.entries@.len(),
                forall|j: int| 0 <= j < i ==> self.entries@[j].0@ != key@,
            decreases self.entries@.len() - i,
        {
            if hash_eq(&self.entries[i].0, key) {
                return Some(i);
            }
            i = i + 1;
        }
        None
    }

    /// The record stored under `key`, if any.
    pub fn get(&self, key: &H256) -> (r: Option<&PaperMetadata>)
        requires
            self.wf(),
        ensures
            r.is_some() == self@.contains_key(key@),
            r matches Some(p) ==> p@ == self@[key@],
    {
        proof {
            lemma_entries_map(self.entries@);
        }
        match self.position(key) {
            Some(i) => Some(&self.entries[i].1),
            None => None,
        }
    }

    /// Stores `paper` under `key`, replacing any record already there.
    pub fn insert(&mut self, key: H256, paper: PaperMetadata)
        requires
            old(self).wf(),
        ensures
            final(self).wf(),
            final(self)@ == old(self)@.insert(key@, paper@),
    {
        match self.position(&key) {
            Some(i) => {
                proof {
                    lemma_entries_update(self.entries@, i as int, key, paper);
                }
                self.entries.set(i, (key, paper));
            },
            None => {
                proof {
                    lemma_entries_push(self.entries@, key, paper);
                }
                self.entries.push((key, paper));
            },
        }
    }
}

} // verus!
