use carbon::crypto::Certificate;
use carbon::crypto::Digest;
use carbon::discovery::Frame;
use carbon::discovery::Observer;
use carbon::view::Change;
use carbon::view::Committee;
use carbon::view::Increment;
use carbon::view::Install;
use carbon::view::Payload;
use carbon::view::ViewStore;

/// Builds the views of a committee that grows by one replica per height,
/// and installs between them.
struct InstallGenerator {
    identities: Vec<Digest>,
    store: ViewStore,
    max_height: usize,
}

impl InstallGenerator {
    fn new(max_height: usize) -> Self {
        let identities = (0..max_height)
            .map(|index| Digest::new(7, 0, 0, index as u64))
            .collect::<Vec<_>>();
        let mut store = ViewStore::new();
        for height in 0..=max_height {
            let view = Committee::genesis(identities[..height].to_vec());
            assert!(store.register(Self::identifier(height), view));
        }
        InstallGenerator { identities, store, max_height }
    }

    fn identifier(height: usize) -> Digest {
        Digest::new(1, 2, 3, height as u64)
    }

    fn view(&self, height: usize) -> Committee {
        self.store.get(&Self::identifier(height)).unwrap()
    }

    fn max_height(&self) -> usize {
        self.max_height
    }

    fn install(&self, source: usize, destination: usize, tail: &[usize]) -> Install {
        let mut heights = vec![source, destination];
        heights.extend_from_slice(tail);
        let increments = heights
            .windows(2)
            .map(|step| {
                let changes = (step[0]..step[1])
                    .map(|index| Change::Join(self.identities[index]))
                    .collect::<Vec<_>>();
                Increment::new(changes).unwrap()
            })
            .collect::<Vec<_>>();
        let payload = Payload::new(Self::identifier(source), increments).unwrap();
        let certificate = Certificate::new(self.identities[..source].to_vec(), vec![0xce]);
        Install::check(payload, certificate, &self.store, true).unwrap()
    }

    fn install_dummy(&self, source: usize, destination: usize, tail: &[usize]) -> Install {
        self.install(source, destination, tail)
    }
}

/// For each height below `max_height`, the last tailless height at or
/// below it; the genesis height where there is none.
fn last_installable(genesis_height: usize, max_height: usize, tailless: &[usize]) -> Vec<usize> {
    (0..max_height)
        .map(|height| {
            tailless
                .iter()
                .copied()
                .filter(|resting| *resting <= height && *resting >= genesis_height)
                .max()
                .unwrap_or(genesis_height)
        })
        .collect()
}

/// A small deterministic generator of pseudo-random numbers.
struct Sequence(u64);

impl Sequence {
    fn next(&mut self, bound: usize) -> usize {
        self.0 = self.0.wrapping_mul(6364136223846793005).wrapping_add(1442695040888963407);
        ((self.0 >> 33) as usize) % bound
    }
}

/// Installs as a run of view changes could produce them, in no particular
/// order: some heights are resting points, no install jumps over a resting
/// point, and an install is tailless only if it ends at one.
fn generate_installs(
    genesis_height: usize,
    max_height: usize,
    resting_points: usize,
    max_tail: usize,
) -> Vec<(usize, usize, Vec<usize>)> {
    let mut sequence = Sequence(0x5eed ^ max_height as u64);
    let top = max_height - 1;

    let mut resting = vec![genesis_height, top];
    for _ in 0..resting_points {
        resting.push(genesis_height + sequence.next(top - genesis_height));
    }
    resting.sort();
    resting.dedup();

    let mut installs = Vec::new();
    for segment in resting.windows(2) {
        let (low, high) = (segment[0], segment[1]);
        for source in low..high {
            for _ in 0..3 {
                let destination = source + 1 + sequence.next(high - source);
                let tail = if destination == high && sequence.next(2) == 0 {
                    vec![]
                } else {
                    let length = 1 + sequence.next(max_tail.max(1));
                    (1..=length)
                        .map(|step| destination + step)
                        .filter(|height| *height <= max_height)
                        .collect::<Vec<_>>()
                };
                if destination < max_height && !(tail.is_empty() && destination != high) {
                    installs.push((source, destination, tail));
                }
            }
            installs.push((source, source + 1, if source + 1 == high { vec![] } else { vec![source + 2] }));
        }
    }

    for index in (1..installs.len()).rev() {
        let other = sequence.next(index + 1);
        installs.swap(index, other);
    }
    installs
}

fn setup(genesis_height: usize, max_height: usize) -> (Frame, InstallGenerator) {
    let generator = InstallGenerator::new(max_height);
    let genesis = generator.view(genesis_height);
    let frame = Frame::genesis(&genesis);

    (frame, generator)
}

fn check_lookup(frame: &Frame, genesis_height: usize, expected: &[usize]) {
    for (index, expected) in expected.iter().enumerate() {
        assert_eq!(frame.start(genesis_height + index), Some(*expected));
    }
}

fn check_frame(frame: &Frame, genesis_height: usize, tailless: &[usize], generator: &InstallGenerator) {
    for (current, last_installable) in
        last_installable(genesis_height, generator.max_height(), tailless)
            .into_iter()
            .enumerate()
            .filter(|(height, _)| *height >= genesis_height)
    {
        let mut client = Observer::new(generator.view(current), generator.view(last_installable));

        let installs = frame.lookup(current);
        client.update(installs);

        assert!(client.current().height() >= frame.top());
    }
}

#[test]
fn manual() {
    const GENESIS_HEIGHT: usize = 10;
    const MAX_HEIGHT: usize = 50;

    let (frame, generator) = setup(GENESIS_HEIGHT, MAX_HEIGHT);

    let i0 = generator.install(10, 15, &[16]);
    let f0 = frame.update(i0).unwrap();

    let i1 = generator.install(15, 20, &[21]);
    let f1 = f0.update(i1).unwrap();

    let i2 = generator.install(20, 25, &[]);
    let f2 = f1.update(i2).unwrap();

    let i3 = generator.install(25, 30, &[31]);
    let f3 = f2.update(i3).unwrap();

    let i4 = generator.install(30, 35, &[]);
    let f4 = f3.update(i4).unwrap();

    let i5 = generator.install(35, 40, &[]);
    let f5 = f4.update(i5).unwrap();

    let expected = &[
        0, 0, 0, 0, 0, 0, 0, 0, 0, 0, 0, 0, 0, 0, 0, 3, 3, 3, 3, 3, 3, 3, 3, 3, 3, 5, 5, 5, 5,
        5,
    ];

    check_lookup(&f5, GENESIS_HEIGHT, expected);
    check_frame(&f5, GENESIS_HEIGHT, &[25, 35, 40], &generator);
}

#[test]
fn manual_lookup() {
    const GENESIS_HEIGHT: usize = 10;
    const MAX_HEIGHT: usize = 50;

    let (mut frame, generator) = setup(GENESIS_HEIGHT, MAX_HEIGHT);

    let installs: [(usize, usize, &[usize]); 6] =
        [(10, 15, &[16]), (15, 20, &[21]), (20, 25, &[]), (25, 30, &[31]), (30, 35, &[]), (35, 40, &[])];
    for (source, destination, tail) in installs {
        frame = frame.update(generator.install(source, destination, tail)).unwrap();
    }

    assert_eq!(frame.top(), 40);
    assert_eq!(frame.len(), 6);

    let sources = |height: usize| {
        frame
            .lookup(height)
            .iter()
            .map(|install| install.transition_ref().source().height())
            .collect::<Vec<_>>()
    };
    assert_eq!(sources(20), vec![10, 15, 20, 25, 30, 35]);
    assert_eq!(sources(24), vec![10, 15, 20, 25, 30, 35]);
    assert_eq!(sources(25), vec![25, 30, 35]);
    assert_eq!(sources(34), vec![25, 30, 35]);
    assert_eq!(sources(35), vec![35]);
    assert_eq!(sources(39), vec![35]);
    assert_eq!(sources(40), Vec::<usize>::new());
    assert_eq!(frame.start(25), Some(3));
}

#[test]
fn all_tailless() {
    const GENESIS_HEIGHT: usize = 10;
    const MAX_HEIGHT: usize = 20;

    let (mut frame, generator) = setup(GENESIS_HEIGHT, MAX_HEIGHT);

    for i in GENESIS_HEIGHT..MAX_HEIGHT {
        let install = generator.install(i, i + 1, &[]);
        frame = frame.update(install).unwrap();
    }

    let expected = &[0, 1, 2, 3, 4, 5, 6, 7, 8, 9];

    check_lookup(&frame, GENESIS_HEIGHT, expected);
    check_frame(&frame, GENESIS_HEIGHT, &(10..21).collect::<Vec<_>>(), &generator);
}

#[test]
fn no_tailless() {
    const GENESIS_HEIGHT: usize = 10;
    const MAX_HEIGHT: usize = 21;

    let (mut frame, generator) = setup(GENESIS_HEIGHT, MAX_HEIGHT);

    for i in GENESIS_HEIGHT..(MAX_HEIGHT - 1) {
        let install = generator.install(i, i + 1, &[i + 2]);
        frame = frame.update(install).unwrap();
    }

    let expected = &[0, 0, 0, 0, 0, 0, 0, 0, 0, 0];

    check_lookup(&frame, GENESIS_HEIGHT, expected);
    check_frame(&frame, GENESIS_HEIGHT, &[], &generator);
}

#[test]
fn new_tailless() {
    const GENESIS_HEIGHT: usize = 10;
    const MAX_HEIGHT: usize = 21;

    let (mut frame, generator) = setup(GENESIS_HEIGHT, MAX_HEIGHT);

    for i in GENESIS_HEIGHT..(MAX_HEIGHT - 1) {
        let install = generator.install(i, i + 1, &[i + 2]);
        frame = frame.update(install).unwrap();
    }

    let expected = &[0, 0, 0, 0, 0, 0, 0, 0, 0, 0];

    check_lookup(&frame, GENESIS_HEIGHT, expected);
    check_frame(&frame, GENESIS_HEIGHT, &[], &generator);

    for i in [15, 17] {
        let install = generator.install(i - 1, i, &[]);
        frame = frame.update(install).unwrap();
    }

    let expected = &[0, 0, 0, 0, 0, 5, 5, 7, 7, 7];

    check_lookup(&frame, GENESIS_HEIGHT, expected);
    check_frame(&frame, GENESIS_HEIGHT, &[15, 17], &generator);
}

#[test]
fn shortcut_tailless() {
    const GENESIS_HEIGHT: usize = 10;
    const MAX_HEIGHT: usize = 21;

    let (mut frame, generator) = setup(GENESIS_HEIGHT, MAX_HEIGHT);

    let i0 = generator.install(10, 11, &[12, 13]);
    frame = frame.update(i0).unwrap();

    let i1 = generator.install(11, 12, &[13]);
    frame = frame.update(i1).unwrap();

    let i2 = generator.install(12, 13, &[]);
    frame = frame.update(i2).unwrap();

    let i3 = generator.install(13, 14, &[15]);
    frame = frame.update(i3).unwrap();

    let expected = &[0, 0, 0, 3];

    check_lookup(&frame, GENESIS_HEIGHT, expected);
    check_frame(&frame, GENESIS_HEIGHT, &[13], &generator);

    let i4 = generator.install(10, 12, &[]);
    frame = frame.update(i4).unwrap();

    let expected = &[0, 0, 1, 2];

    check_lookup(&frame, GENESIS_HEIGHT, expected);
    check_frame(&frame, GENESIS_HEIGHT, &[12, 13], &generator);
}

#[test]
fn shortcut_tails() {
    const GENESIS_HEIGHT: usize = 10;
    const MAX_HEIGHT: usize = 21;

    let (mut frame, generator) = setup(GENESIS_HEIGHT, MAX_HEIGHT);

    let i0 = generator.install(10, 11, &[12, 13]);
    frame = frame.update(i0).unwrap();

    let i1 = generator.install(11, 12, &[13]);
    frame = frame.update(i1).unwrap();

    let i2 = generator.install(12, 13, &[]);
    frame = frame.update(i2).unwrap();

    let i3 = generator.install(13, 14, &[15]);
    frame = frame.update(i3).unwrap();

    let expected = &[0, 0, 0, 3];

    check_lookup(&frame, GENESIS_HEIGHT, expected);
    check_frame(&frame, GENESIS_HEIGHT, &[13], &generator);

    let i4 = generator.install(10, 12, &[13]);
    frame = frame.update(i4).unwrap();

    let expected = &[0, 0, 0, 2];

    check_lookup(&frame, GENESIS_HEIGHT, expected);
    check_frame(&frame, GENESIS_HEIGHT, &[13], &generator);
}

#[test]
fn stress_light_checks() {
    const GENESIS_HEIGHT: usize = 10;
    const MAX_HEIGHT: usize = 50;

    let (mut frame, generator) = setup(GENESIS_HEIGHT, MAX_HEIGHT);

    let installs = generate_installs(GENESIS_HEIGHT, MAX_HEIGHT, MAX_HEIGHT / 5, MAX_HEIGHT / 15);

    let mut tailless = Vec::new();

    for (source, destination, tail) in installs.into_iter() {
        if tail.len() == 0 {
            tailless.push(destination);
        }

        let install = generator.install_dummy(source, destination, &tail);

        if let Some(new) = frame.update(install) {
            frame = new;
        }
    }

    assert_eq!(frame.top(), MAX_HEIGHT - 1);
    check_frame(&frame, GENESIS_HEIGHT, &tailless, &generator);
}

#[test]
fn stress_heavy_checks() {
    const GENESIS_HEIGHT: usize = 10;
    const MAX_HEIGHT: usize = 100;

    let (mut frame, generator) = setup(GENESIS_HEIGHT, MAX_HEIGHT);

    let installs = generate_installs(GENESIS_HEIGHT, MAX_HEIGHT, MAX_HEIGHT / 5, MAX_HEIGHT / 15);

    let mut tailless = Vec::new();
    for (source, destination, tail) in installs.into_iter() {
        if tail.len() == 0 {
            tailless.push(destination);
        }

        let install = generator.install_dummy(source, destination, &tail);

        if let Some(new) = frame.update(install) {
            frame = new;
        }
    }

    check_frame(&frame, GENESIS_HEIGHT, &tailless, &generator);
    assert_eq!(frame.top(), MAX_HEIGHT - 1);
}
