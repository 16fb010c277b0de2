use carbon::crypto::Certificate;
use carbon::crypto::CertificateError;
use carbon::crypto::Digest;
use carbon::crypto::Header;
use carbon::data::DigestSet;
use carbon::data::KeySet;
use carbon::data::Pair;
use carbon::data::ShiftVec;
use carbon::data::Table;
use carbon::discovery::Frame;
use carbon::discovery::Observer;
use carbon::view::Change;
use carbon::view::Committee;
use carbon::view::Increment;
use carbon::view::Install;
use carbon::view::InstallError;
use carbon::view::Payload;
use carbon::view::Transition;
use carbon::view::ViewError;
use carbon::view::ViewStore;

fn replica(index: u64) -> Digest {
    Digest::new(9, 9, 9, index)
}

fn view(members: u64) -> Committee {
    Committee::genesis((0..members).map(replica).collect())
}

fn identifier(height: u64) -> Digest {
    Digest::new(0xaa, 0, 0, height)
}

fn store(heights: &[u64]) -> ViewStore {
    let mut store = ViewStore::new();
    for height in heights {
        assert!(store.register(identifier(*height), view(*height)));
    }
    store
}

fn joins(from: u64, to: u64) -> Increment {
    Increment::new((from..to).map(|index| Change::Join(replica(index))).collect()).unwrap()
}

fn install(store: &ViewStore, source: u64, destination: u64, tail: &[u64]) -> Install {
    let mut heights = vec![source, destination];
    heights.extend_from_slice(tail);
    let increments = heights.windows(2).map(|step| joins(step[0], step[1])).collect();
    let payload = Payload::new(identifier(source), increments).unwrap();
    let certificate = Certificate::new((0..source).map(replica).collect(), vec![1]);
    Install::check(payload, certificate, store, true).unwrap()
}

#[test]
fn digests_are_ordered_limb_by_limb() {
    let small = Digest::new(1, 9, 9, 9);
    let large = Digest::new(2, 0, 0, 0);
    assert!(small.lt(&large));
    assert!(!large.lt(&small));
    assert!(!small.lt(&small));
    assert!(Digest::new(1, 1, 1, 1).lt(&Digest::new(1, 1, 1, 2)));
    assert!(Digest::new(1, 1, 0, 9).lt(&Digest::new(1, 1, 1, 0)));
    assert!(Digest::new(1, 0, 9, 9).lt(&Digest::new(1, 1, 0, 0)));
}

#[test]
fn digest_set_keeps_order_without_repetition() {
    let mut set = DigestSet::new();
    assert!(set.is_empty());
    assert!(set.insert(replica(3)));
    assert!(set.insert(replica(1)));
    assert!(set.insert(replica(2)));
    assert!(!set.insert(replica(3)));
    assert_eq!(set.len(), 3);
    assert_eq!(set.to_vec(), vec![replica(1), replica(2), replica(3)]);
    assert_eq!(set.get(1), replica(2));
    assert!(set.contains(&replica(2)));
    assert!(!set.contains(&replica(4)));
    assert!(set.remove(&replica(2)));
    assert!(!set.remove(&replica(2)));
    assert_eq!(set.to_vec(), vec![replica(1), replica(3)]);

    let other = DigestSet::from_vec(&vec![replica(3), replica(5), replica(3)]);
    assert_eq!(other.to_vec(), vec![replica(3), replica(5)]);
    assert!(!set.is_subset(&other));
    assert!(DigestSet::from_vec(&vec![replica(3)]).is_subset(&other));
    assert_eq!(set.difference(&other).to_vec(), vec![replica(1)]);
    set.extend(&other);
    assert_eq!(set.to_vec(), vec![replica(1), replica(3), replica(5)]);
    assert_eq!(set.clone().to_vec(), set.to_vec());
}

#[test]
fn table_binds_each_key_once() {
    let mut table: Table<u64, u64> = Table::new();
    assert_eq!(table.insert(7, 70), None);
    assert_eq!(table.insert(8, 80), None);
    assert_eq!(table.insert(7, 71), Some(70));
    assert_eq!(table.len(), 2);
    assert_eq!(table.get(&7), Some(&71));
    assert_eq!(table.get(&9), None);
    assert!(table.contains_key(&8));
    assert_eq!(table.key_at(1), 8);

    let mut pairs: KeySet<Pair> = KeySet::new();
    assert!(pairs.insert(Pair { first: replica(1), second: replica(2) }));
    assert!(!pairs.insert(Pair { first: replica(1), second: replica(2) }));
    assert!(pairs.insert(Pair { first: replica(2), second: replica(1) }));
    assert_eq!(pairs.len(), 2);
    assert!(pairs.contains(&Pair { first: replica(2), second: replica(1) }));
    assert_eq!(pairs.get(0), Pair { first: replica(1), second: replica(2) });
}

#[test]
fn shift_vec_starts_at_its_shift() {
    let mut lookup: ShiftVec<usize> = ShiftVec::new(10);
    assert_eq!(lookup.len(), 10);
    lookup.push(4);
    lookup.push(5);
    assert_eq!(lookup.len(), 12);
    assert_eq!(*lookup.get(10), 4);
    assert_eq!(*lookup.get(11), 5);
}

#[test]
fn header_bytes_round_trip() {
    let headers = [
        Header::Install,
        Header::LatticeDecisions,
        Header::Resolution,
        Header::Prepare,
        Header::Witness,
        Header::Reduction,
        Header::Dependency,
        Header::BatchCompletion,
        Header::IdRequest,
    ];
    for header in headers {
        assert_eq!(Header::from_byte(header.byte()), Some(header));
    }
    assert_eq!(Header::Install.byte(), 0);
    assert_eq!(Header::LatticeDecisions.byte(), 1);
    assert_eq!(Header::Resolution.byte(), 2);
    assert_eq!(Header::from_byte(9), None);
    assert_eq!(Header::from_byte(255), None);
}

#[test]
fn genesis_counts_distinct_founders() {
    let view = Committee::genesis(vec![replica(2), replica(1), replica(2)]);
    assert_eq!(view.height(), 2);
    assert_eq!(view.size(), 2);
    assert_eq!(view.member_list(), vec![replica(1), replica(2)]);
    assert!(view.contains(&replica(1)));
    assert!(!view.contains(&replica(3)));
}

#[test]
fn change_extends_a_view_when_it_alters_it() {
    let view = view(3);
    assert_eq!(view.validate_extension(&Change::Join(replica(3))), Ok(()));
    assert_eq!(view.validate_extension(&Change::Join(replica(1))), Err(ViewError::AlreadyMember));
    assert_eq!(view.validate_extension(&Change::Leave(replica(1))), Ok(()));
    assert_eq!(view.validate_extension(&Change::Leave(replica(3))), Err(ViewError::NotMember));
    assert_eq!(Change::Leave(replica(3)).replica(), replica(3));
}

#[test]
fn extension_applies_every_change() {
    let changes = vec![Change::Join(replica(3)), Change::Leave(replica(0)), Change::Join(replica(4))];
    let next = view(3).extend(&Increment::new(changes).unwrap());
    assert_eq!(next.height(), 6);
    assert_eq!(next.member_list(), vec![replica(1), replica(2), replica(3), replica(4)]);
    assert!(Increment::new(vec![]).is_none());
}

#[test]
fn store_binds_an_identifier_once() {
    let mut store = ViewStore::new();
    assert!(store.register(identifier(4), view(4)));
    assert!(!store.register(identifier(4), view(5)));
    assert_eq!(store.len(), 1);
    assert_eq!(store.get(&identifier(4)).unwrap().height(), 4);
    assert!(store.contains(&identifier(4)));
    assert!(store.get(&identifier(5)).is_none());
    store.teardown();
    assert_eq!(store.len(), 0);
    assert!(!store.contains(&identifier(4)));
}

#[test]
fn certificate_needs_members_power_and_signature() {
    let view = view(4);
    let certificate = Certificate::new(vec![replica(0), replica(1), replica(1)], vec![7]);
    assert_eq!(certificate.power(), 2);
    assert_eq!(certificate.signer_list(), vec![replica(0), replica(1)]);
    assert_eq!(certificate.signature_bytes(), &vec![7]);
    assert_eq!(certificate.verify_plurality(&view, true), Ok(()));
    assert_eq!(certificate.verify_plurality(&view, false), Err(CertificateError::InvalidSignature));
    assert_eq!(certificate.verify_quorum(&view, true), Err(CertificateError::InsufficientPower));
    assert_eq!(certificate.verify_threshold(&view, 3, true), Err(CertificateError::InsufficientPower));
    let foreign = Certificate::new(vec![replica(0), replica(9)], vec![]);
    assert_eq!(foreign.verify_plurality(&view, true), Err(CertificateError::ForeignSigner));
    let all = Certificate::new((0..4).map(replica).collect(), vec![]);
    assert_eq!(all.verify_quorum(&view, true), Ok(()));
}

#[test]
fn install_with_unknown_source_is_turned_away() {
    let store = store(&[4]);
    let before = store.len();
    let payload = Payload::new(identifier(5), vec![joins(5, 6)]).unwrap();
    let certificate = Certificate::new((0..5).map(replica).collect(), vec![1]);
    let outcome = Install::check(payload, certificate, &store, true);
    assert!(matches!(outcome, Err(InstallError::SourceUnknown)));
    assert_eq!(store.len(), before);
    assert!(!store.contains(&identifier(5)));
}

#[test]
fn install_without_plurality_is_turned_away() {
    let store = store(&[4]);
    let payload = || Payload::new(identifier(4), vec![joins(4, 6)]).unwrap();
    let weak = Certificate::new(vec![replica(0)], vec![1]);
    assert!(matches!(Install::check(payload(), weak, &store, true), Err(InstallError::CertificateInvalid)));
    let unsigned = Certificate::new(vec![replica(0), replica(1)], vec![1]);
    assert!(matches!(Install::check(payload(), unsigned, &store, false), Err(InstallError::CertificateInvalid)));
    assert!(Payload::new(identifier(4), vec![]).is_none());
}

#[test]
fn install_resolves_its_transition() {
    let store = store(&[4]);
    let install = install(&store, 4, 6, &[7, 9]);
    assert_eq!(install.source(), identifier(4));
    assert_eq!(install.certificate_ref().power(), 4);
    let transition = install.clone().into_transition();
    assert_eq!(transition.source().height(), 4);
    assert_eq!(transition.destination().height(), 6);
    assert_eq!(transition.destination().member_list(), (0..6).map(replica).collect::<Vec<_>>());
    assert!(!transition.tailless());
    assert_eq!(transition.tail().as_ref().unwrap().height(), 9);
    assert_eq!(transition.tail().as_ref().unwrap().size(), 9);

    let tailless = super_install(&store);
    assert!(tailless.transition_ref().tailless());
    assert!(tailless.transition_ref().tail().is_none());
}

fn super_install(store: &ViewStore) -> Install {
    install(store, 4, 5, &[])
}

#[test]
fn transition_heights_must_rise() {
    assert!(Transition::new(view(4), view(5), None).is_some());
    assert!(Transition::new(view(4), view(4), None).is_none());
    assert!(Transition::new(view(5), view(4), None).is_none());
    assert!(Transition::new(view(4), view(5), Some(view(6))).is_some());
    assert!(Transition::new(view(4), view(5), Some(view(5))).is_none());
}

#[test]
fn frame_drops_what_neither_grows_nor_improves() {
    let store = store(&[10, 12, 15, 20]);
    let frame = Frame::genesis(&view(10));
    assert_eq!(frame.top(), 10);
    assert!(frame.lookup(10).is_empty());
    assert_eq!(frame.start(10), None);

    let frame = frame.update(install(&store, 10, 15, &[16])).unwrap();
    assert_eq!(frame.top(), 15);
    assert_eq!(frame.len(), 1);
    assert!(frame.update(install(&store, 10, 15, &[16])).is_none());
    assert!(frame.update(install(&store, 12, 15, &[])).is_none());
    assert!(frame.update(install(&store, 10, 12, &[])).is_none());
    assert_eq!(frame.lookup(3).len(), 1);
    assert_eq!(frame.lookup(14).len(), 1);
    assert!(frame.lookup(15).is_empty());
    assert!(frame.lookup(99).is_empty());
    assert_eq!(frame.start(9), None);
    assert_eq!(frame.start(15), None);

    let improved = frame.update(install(&store, 10, 15, &[])).unwrap();
    assert_eq!(improved.top(), 15);
    assert_eq!(improved.len(), 1);
    assert!(improved.lookup(12)[0].transition_ref().tailless());

    let regrown = frame.update(install(&store, 12, 20, &[])).unwrap();
    assert_eq!(regrown.top(), 20);
    assert_eq!(regrown.len(), 1);
    assert_eq!(regrown.lookup(10)[0].source(), identifier(12));
}

#[test]
fn frame_prefers_the_shorter_then_the_tailless() {
    let store = store(&[10, 15, 20]);
    let frame = Frame::genesis(&view(10));
    let frame = frame.update(install(&store, 10, 15, &[16])).unwrap();

    let chained = frame.update_either(install(&store, 15, 20, &[]), install(&store, 10, 20, &[21])).unwrap();
    assert_eq!(chained.len(), 1);
    assert_eq!(chained.lookup(10)[0].source(), identifier(10));
    assert_eq!(chained.top(), 20);

    let tie = frame.update_either(install(&store, 15, 20, &[21]), install(&store, 15, 20, &[])).unwrap();
    assert_eq!(tie.len(), 2);
    assert!(tie.lookup(10)[1].transition_ref().tailless());

    let first = frame.update_either(install(&store, 15, 20, &[21]), install(&store, 15, 20, &[22])).unwrap();
    assert_eq!(first.lookup(10)[1].transition_ref().tail().as_ref().unwrap().height(), 21);

    let only = frame.update_either(install(&store, 10, 15, &[16]), install(&store, 15, 20, &[])).unwrap();
    assert_eq!(only.top(), 20);
    assert!(frame.update_either(install(&store, 10, 15, &[16]), install(&store, 10, 15, &[17])).is_none());
}

#[test]
fn frame_top_never_falls() {
    let store = store(&[10, 11, 12, 13, 14, 15, 16, 17, 18]);
    let mut frame = Frame::genesis(&view(10));
    let installs = [(10, 14, 15), (12, 13, 0), (10, 12, 0), (14, 18, 0), (10, 11, 12), (13, 14, 0), (16, 17, 0), (10, 18, 0)];
    for (source, destination, tail) in installs {
        let tail = if tail == 0 { vec![] } else { vec![tail] };
        let before = frame.top();
        if let Some(next) = frame.update(install(&store, source, destination, &tail)) {
            assert!(next.top() >= before);
            frame = next;
        }
        assert!(frame.top() >= before);
    }
    assert_eq!(frame.top(), 18);
}

#[test]
fn observer_takes_what_leads_on_from_its_last_tailless_view() {
    let store = store(&[10, 12, 15, 20]);
    let mut observer = Observer::new(view(13), view(12));
    observer.update(vec![
        install(&store, 10, 15, &[16]),
        install(&store, 12, 15, &[16]),
        install(&store, 15, 20, &[]),
        install(&store, 12, 20, &[]),
    ]);
    assert_eq!(observer.current().height(), 20);
    assert_eq!(observer.last_installable().height(), 20);

    let mut stuck = Observer::new(view(13), view(12));
    stuck.update(vec![install(&store, 10, 15, &[])]);
    assert_eq!(stuck.current().height(), 13);
    assert_eq!(stuck.last_installable().height(), 12);

    let mut tailed = Observer::new(view(13), view(12));
    tailed.update(vec![install(&store, 12, 15, &[16])]);
    assert_eq!(tailed.current().height(), 15);
    assert_eq!(tailed.last_installable().height(), 12);
}
