use carbon::churn::ResolutionClaim;
use carbon::churn::ResolutionError;
use carbon::crypto::Certificate;
use carbon::crypto::CertificateError;
use carbon::crypto::Digest;
use carbon::crypto::Proof;
use carbon::crypto::Threshold;
use carbon::data::DigestSet;
use carbon::external::ClientParameters;
use carbon::lattice::CertificationRequest;
use carbon::lattice::DisclosureReady;
use carbon::lattice::DisclosureSend;
use carbon::lattice::Effect;
use carbon::lattice::Element;
use carbon::lattice::Evidence;
use carbon::lattice::LatticeRunner;
use carbon::lattice::Message;
use carbon::prepare::BatchCommit;
use carbon::prepare::Equivocation;
use carbon::prepare::Extract;
use carbon::prepare::Prepare;
use carbon::view::Change;
use carbon::view::Committee;
use carbon::view::ViewStore;

const FINE: Evidence = Evidence { signature_valid: true, element_valid: true };

fn replica(index: u64) -> Digest {
    Digest::new(9, 9, 9, index)
}

fn view() -> Committee {
    Committee::genesis((0..4).map(replica).collect())
}

fn identifier() -> Digest {
    Digest::new(0xaa, 0, 0, 4)
}

#[test]
fn digest_bytes_round_trip() {
    let digest = Digest::new(0x0102030405060708, 0, u64::MAX, 0x1122334455667788);
    let bytes = digest.to_bytes();
    assert_eq!(&bytes[..8], &[1, 2, 3, 4, 5, 6, 7, 8]);
    assert_eq!(&bytes[8..16], &[0; 8]);
    assert_eq!(&bytes[16..24], &[255; 8]);
    assert_eq!(&bytes[24..], &[0x11, 0x22, 0x33, 0x44, 0x55, 0x66, 0x77, 0x88]);
    assert_eq!(Digest::from_bytes(&bytes), digest);

    let mut counted = [0u8; 32];
    for (index, byte) in counted.iter_mut().enumerate() {
        *byte = (index * 7 + 3) as u8;
    }
    assert_eq!(Digest::from_bytes(&counted).to_bytes(), counted);
    assert_eq!(Digest::from_bytes(&counted).a, 0x030a11181f262d34);
}

#[test]
fn digest_order_is_the_order_of_the_bytes() {
    let mut low = [0u8; 32];
    let mut high = [0u8; 32];
    low[9] = 1;
    high[8] = 1;
    assert!(low < high);
    assert!(Digest::from_bytes(&low).lt(&Digest::from_bytes(&high)));
    assert!(!Digest::from_bytes(&high).lt(&Digest::from_bytes(&low)));
}

#[test]
fn parameters_are_four_numbers() {
    let parsed = ClientParameters::parse(&b"12 5000\n30\t4\n".to_vec());
    assert_eq!(
        parsed,
        Some(ClientParameters {
            prepare_batch_number: 12,
            prepare_batch_size: 5000,
            prepare_single_sign_percentage: 30,
            parallel_streams: 4,
        })
    );
    assert_eq!(parsed.unwrap().mini_batch_size(), 1250);
    assert_eq!(
        ClientParameters::parse(&b"  0 18446744073709551615 007 1".to_vec()),
        Some(ClientParameters {
            prepare_batch_number: 0,
            prepare_batch_size: u64::MAX,
            prepare_single_sign_percentage: 7,
            parallel_streams: 1,
        })
    );
    assert_eq!(ClientParameters::parse(&b"1 2 3".to_vec()), None);
    assert_eq!(ClientParameters::parse(&b"1 2 3 4 5".to_vec()), None);
    assert_eq!(ClientParameters::parse(&b"1 2 x 4".to_vec()), None);
    assert_eq!(ClientParameters::parse(&b"1 2 -3 4".to_vec()), None);
    assert_eq!(ClientParameters::parse(&b"1 2 3 18446744073709551616".to_vec()), None);
    assert_eq!(ClientParameters::parse(&b"".to_vec()), None);
    assert_eq!(ClientParameters::default_parameters().parallel_streams, 1);
}

#[test]
fn thresholds_can_be_chosen() {
    let view = view();
    assert_eq!(Threshold::Plurality.of(&view), 2);
    assert_eq!(Threshold::Quorum.of(&view), 4);
    let certificate = Certificate::new(vec![replica(0), replica(1)], vec![]);
    assert_eq!(certificate.verify(&view, Threshold::Plurality, true), Ok(()));
    assert_eq!(
        certificate.verify(&view, Threshold::Quorum, true),
        Err(CertificateError::InsufficientPower)
    );

    let mut store = ViewStore::new();
    store.register(identifier(), view.clone());
    let claim = ResolutionClaim::new(identifier(), Change::Join(replica(7)), certificate);
    assert_eq!(claim.validate_at(&store, &view, Threshold::Plurality, true), Ok(()));
    assert_eq!(
        claim.validate_at(&store, &view, Threshold::Quorum, true),
        Err(ResolutionError::CertificateInvalid)
    );
    assert_eq!(claim.validate(&store, &view, true), Err(ResolutionError::CertificateInvalid));
}

fn disclosure(origin: u64, element: u64) -> DisclosureSend {
    DisclosureSend {
        identifier: Digest::new(0xd1, 0, origin, element),
        view: identifier(),
        instance: Digest::new(0x1a, 0, 0, 0),
        element: Element::new(Digest::new(0xe1, 0, 0, element), vec![element as u8]),
        signature: carbon::crypto::Signature::new(vec![]),
    }
}

fn request(elements: &[u64]) -> Message {
    let elements = elements.iter().map(|index| Digest::new(0xe1, 0, 0, *index)).collect::<Vec<_>>();
    Message::CertificationRequest(CertificationRequest {
        identifier: Digest::new(0x5e7, 0, 0, elements.iter().map(|element| 1 << element.d).sum()),
        elements: DigestSet::from_vec(&elements),
    })
}

#[test]
fn confirmed_requests_are_comparable() {
    let mut runner = LatticeRunner::new(view(), identifier(), Digest::new(0x1a, 0, 0, 0));
    for origin in 0..4 {
        runner.handle_message(replica(origin), Message::DisclosureSend(disclosure(origin, origin + 1)), FINE).unwrap();
        for source in 0..4 {
            let ready = DisclosureReady { origin: replica(origin), disclosure: disclosure(origin, origin + 1).identifier };
            runner.handle_message(replica(source), Message::DisclosureReady(ready), FINE).unwrap();
        }
    }

    let asked: [&[u64]; 6] = [&[2], &[1, 2], &[3], &[1, 2, 3], &[2, 4], &[1, 2, 3, 4]];
    let mut confirmed: Vec<Vec<Digest>> = Vec::new();
    for elements in asked {
        let effects = runner.handle_message(replica(1), request(elements), FINE).unwrap();
        if let Effect::Confirm { elements, .. } = &effects[0] {
            confirmed.push(elements.to_vec());
        }
    }
    assert_eq!(confirmed.len(), 4);
    for (index, earlier) in confirmed.iter().enumerate() {
        for later in &confirmed[index..] {
            assert!(earlier.iter().all(|element| later.contains(element)));
        }
    }
}

#[test]
fn exclusions_name_each_account_once() {
    let extract = |id: u64, operation: u64| {
        Extract::new(
            identifier(),
            Digest::new(0xbb, 0, 0, operation),
            Certificate::new(vec![replica(0), replica(1)], vec![]),
            Proof::new(vec![]),
            Prepare::new(id, 1, Digest::new(0xc0, 0, 0, operation)),
        )
    };
    let equivocation = |id: u64| Equivocation::new(extract(id, 1), extract(id, 2));
    let commit = BatchCommit::new(
        identifier(),
        Digest::new(0xbb, 0, 0, 3),
        vec![equivocation(7), equivocation(5), equivocation(7)],
    );
    assert_eq!(commit.excepted_ids(), vec![7, 5, 7]);
    assert_eq!(commit.exclusions(), vec![7, 5]);
}
