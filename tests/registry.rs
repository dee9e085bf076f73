use hash_db::Hasher;
use keccak_hasher::KeccakHasher;
use papermgmt::hashing::H256;
use papermgmt::registry::{check_paper, title_key};
use papermgmt::{Config, Error, Event, Pallet, PaperMetadata};
use parity_scale_codec::Encode;

fn config() -> Config {
    Config {
        max_leaves: 4,
        max_vector_length: 3,
        max_keywords: 2,
        max_title_length: 5,
        max_authors_length: 6,
        max_abstract_length: 7,
        max_ipfs_url_length: 8,
    }
}

fn b(s: &str) -> Vec<u8> {
    s.as_bytes().to_vec()
}

fn key_of(title: &[u8]) -> H256 {
    KeccakHasher::hash(&title.to_vec().encode())
}

fn register(p: &mut Pallet, title: &str, keywords: Vec<Vec<u8>>) -> Result<H256, Error> {
    p.add_paper(b(title), b("ann"), b("abs"), b("ipfs"), vec![1, 2], keywords)
}

#[test]
fn title_key_hashes_the_scale_encoding() {
    let t = b("T");
    let k = title_key(&t);
    assert_eq!(k, KeccakHasher::hash(&[4u8, b'T']));
    assert_eq!(k, key_of(&t));
    assert_ne!(k, KeccakHasher::hash(&t));
}

#[test]
fn title_key_of_long_title_uses_two_byte_prefix() {
    let t = vec![b'x'; 64];
    let mut encoded = vec![0x01u8, 0x01];
    encoded.extend_from_slice(&t);
    assert_eq!(title_key(&t), KeccakHasher::hash(&encoded));
}

#[test]
fn accepted_paper_is_found_under_its_title_hash() {
    let mut p = Pallet::new(config());
    let key = p
        .add_paper(b("Title"), b("Ann B"), b("Summary"), b("ipfs://x"), vec![9, 8, 7], vec![b("ml"), b("ai")])
        .unwrap();
    assert_eq!(key, key_of(b"Title"));
    let stored = p.papers(&key).unwrap();
    assert_eq!(
        stored,
        &PaperMetadata {
            title: b("Title"),
            authors: b("Ann B"),
            abstract_text: b("Summary"),
            ipfs_url: b("ipfs://x"),
            vector: vec![9, 8, 7],
            keywords: vec![b("ml"), b("ai")],
        }
    );
    assert_eq!(p.events(), &vec![Event::PaperAdded(key)]);
}

#[test]
fn empty_fields_are_accepted() {
    let mut p = Pallet::new(config());
    let key = p.add_paper(Vec::new(), Vec::new(), Vec::new(), Vec::new(), Vec::new(), Vec::new()).unwrap();
    assert_eq!(key, key_of(b""));
    assert!(p.papers(&key).is_some());
}

#[test]
fn each_broken_bound_gives_its_error() {
    let c = config();
    let ok = |n: usize| vec![b'a'; n];
    let cases: Vec<(Vec<u8>, Vec<u8>, Vec<u8>, Vec<u8>, Vec<u8>, Vec<Vec<u8>>, Error)> = vec![
        (ok(6), ok(0), ok(0), ok(0), ok(0), vec![], Error::TitleTooLong),
        (ok(5), ok(7), ok(0), ok(0), ok(0), vec![], Error::AuthorsTooLong),
        (ok(5), ok(6), ok(8), ok(0), ok(0), vec![], Error::AbstractTooLong),
        (ok(5), ok(6), ok(7), ok(9), ok(0), vec![], Error::IpfsUrlTooLong),
        (ok(5), ok(6), ok(7), ok(8), ok(4), vec![], Error::VectorTooLong),
        (ok(5), ok(6), ok(7), ok(8), ok(3), vec![ok(1), ok(6)], Error::TitleTooLong),
        (ok(5), ok(6), ok(7), ok(8), ok(3), vec![ok(1), ok(1), ok(1)], Error::TooManyKeywords),
    ];
    for (t, a, ab, u, v, k, e) in cases {
        assert_eq!(check_paper(&c, t.clone(), a.clone(), ab.clone(), u.clone(), v.clone(), k.clone()), Err(e));
        let mut p = Pallet::new(c);
        assert_eq!(p.add_paper(t.clone(), a, ab, u, v, k), Err(e));
        assert!(p.papers(&key_of(&t)).is_none());
        assert!(p.events().is_empty());
    }
}

#[test]
fn bounds_are_checked_in_order() {
    let c = config();
    let long = vec![b'z'; 20];
    assert_eq!(
        check_paper(&c, long.clone(), long.clone(), long.clone(), long.clone(), long.clone(), vec![long.clone(); 5]),
        Err(Error::TitleTooLong)
    );
    assert_eq!(
        check_paper(&c, b("t"), b("a"), b("x"), b("u"), long.clone(), vec![long.clone(); 5]),
        Err(Error::VectorTooLong)
    );
    assert_eq!(
        check_paper(&c, b("t"), b("a"), b("x"), b("u"), vec![], vec![long; 5]),
        Err(Error::TitleTooLong)
    );
}

#[test]
fn values_at_the_bounds_are_accepted() {
    let c = config();
    let m = check_paper(&c, vec![1; 5], vec![2; 6], vec![3; 7], vec![4; 8], vec![5; 3], vec![vec![6; 5], vec![7; 5]])
        .unwrap();
    assert_eq!(m.keywords, vec![vec![6; 5], vec![7; 5]]);
    assert_eq!(m.vector, vec![5; 3]);
}

#[test]
fn rejected_paper_keeps_previous_record() {
    let mut p = Pallet::new(config());
    let key = register(&mut p, "T", vec![b("a")]).unwrap();
    let before = p.papers(&key).unwrap().clone();
    assert_eq!(
        p.add_paper(b("T"), b("ann"), b("abs"), b("ipfs"), vec![1, 2, 3, 4], vec![]),
        Err(Error::VectorTooLong)
    );
    assert_eq!(p.papers(&key), Some(&before));
    assert_eq!(p.events().len(), 1);
}

#[test]
fn same_title_overwrites_record() {
    let mut p = Pallet::new(config());
    let k1 = p.add_paper(b("Same"), b("one"), b("first"), b("u1"), vec![1], vec![]).unwrap();
    let other = register(&mut p, "Other", vec![]).unwrap();
    let k2 = p.add_paper(b("Same"), b("two"), b("second"), b("u2"), vec![2], vec![b("k")]).unwrap();
    assert_eq!(k1, k2);
    let stored = p.papers(&k1).unwrap();
    assert_eq!(stored.authors, b("two"));
    assert_eq!(stored.abstract_text, b("second"));
    assert_eq!(stored.ipfs_url, b("u2"));
    assert_eq!(stored.vector, vec![2]);
    assert_eq!(stored.keywords, vec![b("k")]);
    assert_eq!(p.papers(&other).unwrap().title, b("Other"));
}

#[test]
fn title_t_keywords_replaced_scenario() {
    let mut p = Pallet::new(config());
    let key = register(&mut p, "T", vec![b("a"), b("b")]).unwrap();
    assert_eq!(key, key_of(b"T"));
    assert_eq!(p.papers(&key_of(b"T")).unwrap().keywords, vec![b("a"), b("b")]);
    let again = register(&mut p, "T", vec![b("c")]).unwrap();
    assert_eq!(again, key);
    assert_eq!(p.papers(&key_of(b"T")).unwrap().keywords, vec![b("c")]);
    assert_eq!(p.events(), &vec![Event::PaperAdded(key), Event::PaperAdded(key)]);
}

#[test]
fn unknown_key_is_absent() {
    let p = Pallet::new(config());
    assert!(p.papers(&[0u8; 32]).is_none());
    assert_eq!(p.config(), config());
}
