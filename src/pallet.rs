//! The operations over the shared state: append a leaf, verify an inclusion
//! proof, register a paper. Each records its notification in the event log.
use crate::accumulator::{appended, inclusion_holds, verify_inclusion};
use crate::config::{Config, Error, Event};
use crate::hashing::H256;
use crate::registry::{
    check_paper, fits, paper_key, paper_of, registration_error, title_key, PaperMetadata,
    PaperRegistry, PaperView,
};
use vstd::prelude::*;

verus! {

/// The registry after a registration attempt of `p`: unchanged when a bound is
/// broken, else `p` stored under the key of its title.
pub open spec fn registry_after(
    c: Config,
    papers: Map<Seq<u8>, PaperView>,
    p: PaperView,
) -> Map<Seq<u8>, PaperView> {
    match registration_error(c, p) {
        Some(_) => papers,
        None => papers.insert(paper_key(p.title), p),
    }
}

/// A rejected registration leaves the registry as it was.
pub proof fn lemma_rejected_paper_changes_nothing(
    c: Config,
    papers: Map<Seq<u8>, PaperView>,
    p: PaperView,
)
    requires
        registration_error(c, p) is Some,
    ensures
        registry_after(c, papers, p) == papers,
{
}

/// A paper within all bounds is accepted, and a lookup by the key of its title
/// then yields exactly its fields.
pub proof fn lemma_registered_paper_found(
    c: Config,
    papers: Map<Seq<u8>, PaperView>,
    p: PaperView,
)
    requires
        fits(c, p),
    ensures
        registration_error(c, p) == None::<Error>,
        registry_after(c, papers, p).contains_key(paper_key(p.title)),
        registry_after(c, papers, p)[paper_key(p.title)] == p,
{
}

/// A second accepted paper with the same title replaces the first under the
/// same key, and no other key appears or changes.
pub proof fn lemma_same_title_overwrites(
    c: Config,
    papers: Map<Seq<u8>, PaperView>,
    first: PaperView,
    second: PaperView,
)
    requires
        fits(c, first),
        fits(c, second),
        first.title == second.title,
    ensures
        ({
            let once = registry_after(c, papers, first);
            let twice = registry_after(c, once, second);
            &&& twice.dom() == once.dom()
            &&& twice[paper_key(first.title)] == second
            &&& forall|k: Seq<u8>| k != paper_key(first.title) ==> #[trigger] twice.get(k)
                == papers.get(k)
        }),
{
    let once = registry_after(c, papers, first);
    let twice = registry_after(c, once, second);
    assert(twice.dom() =~= once.dom());
}

/// The log, the paper registry and the event record, under fixed bounds.
pub struct Pallet {
    config: Config,
    leaves: Vec<H256>,
    papers: PaperRegistry,
    events: Vec<Event>,
}

impl Pallet {
    /// The configured bounds.
    pub closed spec fn config_view(&self) -> Config {
        self.config
    }

    /// The leaf log, in insertion order.
    pub closed spec fn leaves_view(&self) -> Seq<H256> {
        self.leaves@
    }

    /// The paper registry, by key.
    pub closed spec fn papers_view(&self) -> Map<Seq<u8>, PaperView> {
        self.papers@
    }

    /// The notifications recorded so far, oldest first.
    pub closed spec fn events_view(&self) -> Seq<Event> {
        self.events@
    }

    /// The log is within capacity and every stored record within its bounds.
    pub closed spec fn wf(&self) -> bool {
        &&& self.leaves@.len() <= self.config.max_leaves
        &&& self.papers.wf()
        &&& self.papers.all_fit(self.config)
    }

    /// Every stored record fits the configured bounds.
    pub proof fn lemma_stored_papers_fit(&self)
        requires
            self.wf(),
        ensures
            self.leaves_view().len() <= self.config_view().max_leaves,
            forall|k: Seq<u8>| #[trigger]
                self.papers_view().contains_key(k) ==> fits(
                    self.config_view(),
                    self.papers_view()[k],
                ),
    {
    }

    /// Empty state under the given bounds.
    pub fn new(config: Config) -> (r: Self)
        ensures
            r.wf(),
            r.config_view() == config,
            r.leaves_view() == Seq::<H256>::empty(),
            r.papers_view() == Map::<Seq<u8>, PaperView>::empty(),
            r.events_view() == Seq::<Event>::empty(),
    {
        Pallet { config, leaves: Vec::new(), papers: PaperRegistry::new(), events: Vec::new() }
    }

    /// Appends `leaf` to the log; fails with `TooManyLeaves`, changing nothing,
    /// when the log is full.
    pub fn add_leaf(&mut self, leaf: H256) -> (r: Result<(), Error>)
        requires
            old(self).wf(),
        ensures
            final(self).wf(),
            final(self).config_view() == old(self).config_view(),
            final(self).papers_view() == old(self).papers_view(),
            match appended(
                old(self).config_view().max_leaves as nat,
                old(self).leaves_view(),
                leaf,
            ) {
                Some(log) => {
                    &&& r == Ok::<(), Error>(())
                    &&& final(self).leaves_view() == log
                    &&& final(self).events_view() == old(self).events_view().push(
                        Event::LeafAdded(leaf),
                    )
                },
                None => {
                    &&& r == Err::<(), Error>(Error::TooManyLeaves)
                    &&& final(self).leaves_view() == old(self).leaves_view()
                    &&& final(self).events_view() == old(self).events_view()
                },
            },
    {
        if self.leaves.len() >= self.config.max_leaves as usize {
            return Err(Error::TooManyLeaves);
        }
        self.leaves.push(leaf);
        self.events.push(Event::LeafAdded(leaf));
        Ok(())
    }

    /// Records the outcome of an inclusion check and turns a failed one into
    /// `ProofVerificationFailed`.
    pub fn record_verification(&mut self, is_valid: bool) -> (r: Result<(), Error>)
        requires
            old(self).wf(),
        ensures
            final(self).wf(),
            final(self).config_view() == old(self).config_view(),
            final(self).leaves_view() == old(self).leaves_view(),
            final(self).papers_view() == old(self).papers_view(),
            final(self).events_view() == old(self).events_view().push(
                Event::ProofVerified(is_valid),
            ),
            r == if is_valid {
                Ok::<(), Error>(())
            } else {
                Err(Error::ProofVerificationFailed)
            },
    {
        self.events.push(Event::ProofVerified(is_valid));
        if is_valid {
            Ok(())
        } else {
            Err(Error::ProofVerificationFailed)
        }
    }

    /// Checks that `proof` shows `leaf` at `leaf_index` in the log, against the
    /// root recomputed from the whole log, and records the outcome. A failed
    /// check, an out-of-range index among them, gives `ProofVerificationFailed`.
    pub fn verify_proof(&mut self, proof: Vec<H256>, leaf_index: u32, leaf: H256) -> (r: Result<
        (),
        Error,
    >)
        requires
            old(self).wf(),
        ensures
            final(self).wf(),
            final(self).config_view() == old(self).config_view(),
            final(self).leaves_view() == old(self).leaves_view(),
            final(self).papers_view() == old(self).papers_view(),
            ({
                let holds = inclusion_holds(
                    old(self).leaves_view(),
                    proof@,
                    leaf_index as nat,
                    leaf,
                );
                &&& final(self).events_view() == old(self).events_view().push(
                    Event::ProofVerified(holds),
                )
                &&& r == if holds {
                    Ok::<(), Error>(())
                } else {
                    Err(Error::ProofVerificationFailed)
                }
            }),
            leaf_index >= old(self).leaves_view().len() ==> r == Err::<(), Error>(
                Error::ProofVerificationFailed,
            ),
    {
        let is_valid = verify_inclusion(&self.leaves, proof, leaf_index, &leaf);
        self.record_verification(is_valid)
    }

    /// Stores an accepted paper under `key` and records the addition.
    pub fn store_paper(&mut self, key: H256, paper: PaperMetadata)
        requires
            old(self).wf(),
            fits(old(self).config_view(), paper@),
        ensures
            final(self).wf(),
            final(self).config_view() == old(self).config_view(),
            final(self).leaves_view() == old(self).leaves_view(),
            final(self).papers_view() == old(self).papers_view().insert(key@, paper@),
            final(self).events_view() == old(self).events_view().push(Event::PaperAdded(key)),
    {
        let ghost before = self.papers@;
        self.papers.insert(key, paper);
        assert forall|k: Seq<u8>| #[trigger] self.papers@.contains_key(k) implies fits(
            self.config,
            self.papers@[k],
        ) by {
            if k != key@ {
                assert(before.contains_key(k));
            }
        }
        self.events.push(Event::PaperAdded(key));
    }

    /// Validates every field against its bound, in order, and on success stores
    /// the record under the hash of its title, replacing any record there, and
    /// returns that key. On a broken bound nothing changes.
    pub fn add_paper(
        &mut self,
        title: Vec<u8>,
        authors: Vec<u8>,
        abstract_text: Vec<u8>,
        ipfs_url: Vec<u8>,
        vector: Vec<u8>,
        keywords: Vec<Vec<u8>>,
    ) -> (r: Result<H256, Error>)
        requires
            old(self).wf(),
        ensures
            final(self).wf(),
            final(self).config_view() == old(self).config_view(),
            final(self).leaves_view() == old(self).leaves_view(),
            ({
                let p = paper_of(title@, authors@, abstract_text@, ipfs_url@, vector@, keywords@);
                &&& final(self).papers_view() == registry_after(
                    old(self).config_view(),
                    old(self).papers_view(),
                    p,
                )
                &&& match registration_error(old(self).config_view(), p) {
                    Some(e) => {
                        &&& r == Err::<H256, Error>(e)
                        &&& final(self).events_view() == old(self).events_view()
                    },
                    None => {
                        &&& r matches Ok(key) && key@ == paper_key(title@)
                        &&& final(self).events_view() == old(self).events_view().push(
                            Event::PaperAdded(r->Ok_0),
                        )
                    },
                }
            }),
    {
        match check_paper(&self.config, title, authors, abstract_text, ipfs_url, vector, keywords) {
            Err(e) => Err(e),
            Ok(paper) => {
                let key = title_key(&paper.title);
                self.store_paper(key, paper);
                Ok(key)
            },
        }
    }

    /// The leaf log, in insertion order.
    pub fn leaves(&self) -> (r: &Vec<H256>)
        ensures
            r@ == self.leaves_view(),
    {
        &self.leaves
    }

    /// The record stored under `key`, if any.
    pub fn papers(&self, key: &H256) -> (r: Option<&PaperMetadata>)
        requires
            self.wf(),
        ensures
            r.is_some() == self.papers_view().contains_key(key@),
            r matches Some(p) ==> p@ == self.papers_view()[key@],
    {
        self.papers.get(key)
    }

    /// The notifications recorded so far, oldest first.
    pub fn events(&self) -> (r: &Vec<Event>)
        ensures
            r@ == self.events_view(),
    {
        &self.events
    }

    /// The configured bounds.
    pub fn config(&self) -> (r: Config)
        ensures
            r == self.config_view(),
    {
        self.config
    }
}

} // verus!
