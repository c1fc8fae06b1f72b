use bsfb::ctf::{Ctf, Member, TypeRecord, CTF_K_STRUCT};
use bsfb::fb::{locate_framebuffer, shuffle, ChunkSink, Entropy, FbDesc, Framebuffer, Image};
use bsfb::kvm::{Kvm, Symbol};

/// A small xorshift-star generator, good enough for the statistical checks.
struct TestRng {
    state: u64,
}

impl TestRng {
    fn seeded(seed: u64) -> TestRng {
        TestRng { state: seed | 1 }
    }

    fn next(&mut self) -> u64 {
        let mut x = self.state;
        x ^= x >> 12;
        x ^= x << 25;
        x ^= x >> 27;
        self.state = x;
        x.wrapping_mul(0x2545F4914F6CDD1D)
    }
}

impl Entropy for TestRng {
    fn draw(&mut self, bound: u32) -> u32 {
        if bound == 0 {
            0
        } else {
            (self.next() % bound as u64) as u32
        }
    }
}

/// A sink that records every chunk write and reports it fully written.
struct RecordingSink {
    calls: Vec<(usize, Vec<u8>)>,
}

impl RecordingSink {
    fn new() -> RecordingSink {
        RecordingSink { calls: Vec::new() }
    }
}

impl ChunkSink for RecordingSink {
    fn write(&mut self, offset: usize, data: &[u8]) -> isize {
        self.calls.push((offset, data.to_vec()));
        data.len() as isize
    }
}

/// A fault-injected sink that always under-reports the bytes written.
struct UnderReportingSink {
    calls: usize,
}

impl ChunkSink for UnderReportingSink {
    fn write(&mut self, _offset: usize, data: &[u8]) -> isize {
        self.calls += 1;
        data.len() as isize - 1
    }
}

fn black(width: u16, height: u16) -> Image {
    Image::new(width, height, vec![0u8; 3 * width as usize * height as usize]).unwrap()
}

fn small_engine() -> Framebuffer {
    // 4x4 pixels, 64 device bytes, 4 chunks: each chunk is one 4-pixel row.
    let desc = FbDesc { baseaddr: 0, size: 64, width: 4, height: 4 };
    Framebuffer::new(desc, 4, 0)
}

#[test]
fn image_new_rejects_mismatched_data() {
    assert!(Image::new(2, 2, vec![0u8; 11]).is_none());
    assert!(Image::new(2, 2, vec![0u8; 12]).is_some());
}

#[test]
fn dimensions_come_from_the_descriptor() {
    let fb = small_engine();
    assert_eq!(fb.width(), 4);
    assert_eq!(fb.height(), 4);
}

#[test]
fn shuffle_output_is_a_permutation() {
    let original: Vec<usize> = (0..50).collect();
    let mut v = original.clone();
    let mut rng = TestRng::seeded(0x5eed);
    shuffle(&mut v, &mut rng);
    let mut sorted = v.clone();
    sorted.sort();
    assert_eq!(sorted, original);
    assert_ne!(v, original, "50 elements staying put would be a miracle");
}

#[test]
fn shuffle_positions_are_close_to_uniform() {
    // Track where element 0 lands over many trials; each of the four
    // positions should receive roughly a quarter of them.
    let trials = 8000;
    let mut counts = [0usize; 4];
    let mut rng = TestRng::seeded(0xfeed);
    for _ in 0..trials {
        let mut v: Vec<usize> = vec![0, 1, 2, 3];
        shuffle(&mut v, &mut rng);
        let pos = v.iter().position(|&x| x == 0).unwrap();
        counts[pos] += 1;
    }
    for &c in counts.iter() {
        assert!(c > 1600 && c < 2400, "position counts {:?} stray from uniform", counts);
    }
}

#[test]
fn first_apply_forces_a_full_redraw() {
    let mut fb = small_engine();
    let img = black(4, 4);
    let mut rng = TestRng::seeded(1);
    let mut sink = RecordingSink::new();
    let mut flushed = fb.apply(&img, 0, &mut rng, &mut sink);
    flushed.sort();
    assert_eq!(flushed, vec![0, 1, 2, 3]);
    assert_eq!(sink.calls.len(), 4);
    let mut offsets: Vec<usize> = sink.calls.iter().map(|c| c.0).collect();
    offsets.sort();
    assert_eq!(offsets, vec![0, 16, 32, 48]);
    for (_, data) in sink.calls.iter() {
        assert_eq!(data.len(), 16);
    }
}

#[test]
fn second_apply_of_the_same_image_flushes_nothing() {
    let mut fb = small_engine();
    let img = black(4, 4);
    let mut rng = TestRng::seeded(2);
    let mut sink = RecordingSink::new();
    fb.apply(&img, 0, &mut rng, &mut sink);
    let flushed = fb.apply(&img, 0, &mut rng, &mut sink);
    assert_eq!(flushed, Vec::<usize>::new());
    assert_eq!(sink.calls.len(), 4, "the second call must not write");
}

#[test]
fn one_changed_pixel_dirties_exactly_its_chunk() {
    let mut fb = small_engine();
    let img = black(4, 4);
    let mut rng = TestRng::seeded(3);
    let mut sink = RecordingSink::new();
    fb.apply(&img, 0, &mut rng, &mut sink);

    // Change one pixel in the second row: pixel 5 lives in chunk 1.
    let mut data = vec![0u8; 48];
    data[3 * 5] = 0xaa;
    let img2 = Image::new(4, 4, data).unwrap();
    let mut sink2 = RecordingSink::new();
    let flushed = fb.apply(&img2, 0, &mut rng, &mut sink2);
    assert_eq!(flushed, vec![1]);
    assert_eq!(sink2.calls.len(), 1, "the three clean chunks stay unissued");
    assert_eq!(sink2.calls[0].0, 16);
}

#[test]
fn elapsed_interval_forces_a_full_redraw_and_resets_the_timer() {
    let mut fb = small_engine();
    let img = black(4, 4);
    let mut rng = TestRng::seeded(4);
    let mut sink = RecordingSink::new();
    fb.apply(&img, 0, &mut rng, &mut sink);

    // More than 15 whole seconds later, the same image flushes everything.
    let mut flushed = fb.apply(&img, 16001, &mut rng, &mut sink);
    flushed.sort();
    assert_eq!(flushed, vec![0, 1, 2, 3]);

    // The timer reset at 16001: one second later nothing is due again.
    let flushed = fb.apply(&img, 17000, &mut rng, &mut sink);
    assert_eq!(flushed, Vec::<usize>::new());
}

#[test]
fn short_writes_are_swallowed_and_the_shadow_still_updates() {
    let mut fb = small_engine();
    let mut data = vec![0u8; 48];
    data[0] = 1;
    let img = Image::new(4, 4, data).unwrap();
    let mut rng = TestRng::seeded(5);
    let mut sink = UnderReportingSink { calls: 0 };
    let flushed = fb.apply(&img, 0, &mut rng, &mut sink);
    assert_eq!(flushed.len(), 4, "a short write must not stop the flush");
    assert_eq!(sink.calls, 4);

    // The shadow took the image even though every write under-reported:
    // re-applying the same image finds nothing dirty.
    let mut sink2 = RecordingSink::new();
    let flushed = fb.apply(&img, 0, &mut rng, &mut sink2);
    assert_eq!(flushed, Vec::<usize>::new());
    assert_eq!(sink2.calls.len(), 0);
}

#[test]
fn device_bytes_hold_the_reversed_triplet() {
    let desc = FbDesc { baseaddr: 0, size: 4, width: 1, height: 1 };
    let mut fb = Framebuffer::new(desc, 1, 0);
    let img = Image::new(1, 1, vec![1, 2, 3]).unwrap();
    let mut rng = TestRng::seeded(6);
    let mut sink = RecordingSink::new();
    let flushed = fb.apply(&img, 0, &mut rng, &mut sink);
    assert_eq!(flushed, vec![0]);
    assert_eq!(sink.calls.len(), 1);
    assert_eq!(sink.calls[0].1, vec![3, 2, 1, 0]);
}

#[test]
fn locating_reads_the_descriptor_through_resolved_offsets() {
    let fb_info = TypeRecord {
        kind: CTF_K_STRUCT,
        name: Some("struct fb_info".to_string()),
        members: Some(vec![
            Member { name: "fb".to_string(), type_: 0, offset: 0 },
            Member { name: "fb_size".to_string(), type_: 0, offset: 64 },
            Member { name: "screen".to_string(), type_: 1, offset: 128 },
        ]),
    };
    let coord = TypeRecord {
        kind: CTF_K_STRUCT,
        name: Some("struct fb_info_pixel_coord".to_string()),
        members: Some(vec![
            Member { name: "x".to_string(), type_: 0, offset: 0 },
            Member { name: "y".to_string(), type_: 0, offset: 16 },
        ]),
    };
    let ctf = Ctf::open(vec![fb_info, coord]).unwrap();

    let mut mem = Vec::new();
    mem.extend_from_slice(&0x00BEEF00u64.to_le_bytes()); // fb
    mem.extend_from_slice(&64u64.to_le_bytes()); // fb_size
    mem.extend_from_slice(&4u16.to_le_bytes()); // screen.x
    mem.extend_from_slice(&4u16.to_le_bytes()); // screen.y
    let kvm = Kvm::new(
        vec![Symbol { name: "fb_info".to_string(), value: 0x1000, type_: 1 }],
        0x1000,
        mem,
    );

    let desc = locate_framebuffer(&ctf, &kvm).unwrap();
    assert_eq!(desc, FbDesc { baseaddr: 0x00BEEF00, size: 64, width: 4, height: 4 });
}

#[test]
fn locating_fails_when_the_symbol_is_undefined() {
    let ctf = Ctf::open(vec![
        TypeRecord {
            kind: CTF_K_STRUCT,
            name: Some("struct fb_info".to_string()),
            members: Some(vec![
                Member { name: "fb".to_string(), type_: 0, offset: 0 },
                Member { name: "fb_size".to_string(), type_: 0, offset: 64 },
                Member { name: "screen".to_string(), type_: 1, offset: 128 },
            ]),
        },
        TypeRecord {
            kind: CTF_K_STRUCT,
            name: Some("struct fb_info_pixel_coord".to_string()),
            members: Some(vec![
                Member { name: "x".to_string(), type_: 0, offset: 0 },
                Member { name: "y".to_string(), type_: 0, offset: 16 },
            ]),
        },
    ])
    .unwrap();
    let kvm = Kvm::new(
        vec![Symbol { name: "fb_info".to_string(), value: 0x1000, type_: 0 }],
        0x1000,
        vec![0; 20],
    );
    assert_eq!(locate_framebuffer(&ctf, &kvm), Err(bsfb::Error::NotFound));
}
