use bsfb::ctf::{Ctf, Member, TypeRecord, CTF_K_INTEGER, CTF_K_POINTER, CTF_K_STRUCT};
use bsfb::Error;

fn member(name: &str, type_: usize, offset: usize) -> Member {
    Member { name: name.to_string(), type_, offset }
}

fn struct_record(name: &str, members: Vec<Member>) -> TypeRecord {
    TypeRecord { kind: CTF_K_STRUCT, name: Some(name.to_string()), members: Some(members) }
}

fn int_record() -> TypeRecord {
    TypeRecord { kind: CTF_K_INTEGER, name: Some("int".to_string()), members: None }
}

fn sample_session() -> Ctf {
    let records = vec![
        int_record(),
        struct_record(
            "struct fb_info",
            vec![
                member("fb", 0, 0),
                member("fb_size", 0, 64),
                member("screen", 2, 128),
                member("crooked", 0, 12),
            ],
        ),
        struct_record("struct fb_info_pixel_coord", vec![member("x", 0, 0), member("y", 0, 16)]),
    ];
    Ctf::open(records).expect("well-formed table")
}

#[test]
fn open_rejects_out_of_range_kind() {
    let records = vec![TypeRecord { kind: 99, name: None, members: None }];
    assert_eq!(Ctf::open(records).err(), Some(Error::FormatError));
}

#[test]
fn open_rejects_negative_kind() {
    let records = vec![TypeRecord { kind: -1, name: None, members: None }];
    assert_eq!(Ctf::open(records).err(), Some(Error::FormatError));
}

#[test]
fn max_id_counts_records() {
    assert_eq!(sample_session().max_id(), 3);
}

#[test]
fn offset_of_divides_bit_offset_by_eight() {
    let ctf = sample_session();
    assert_eq!(ctf.offset_of(1, "fb").unwrap(), 0);
    assert_eq!(ctf.offset_of(1, "fb_size").unwrap(), 8);
    assert_eq!(ctf.offset_of(1, "screen").unwrap(), 16);
}

#[test]
fn offset_of_is_deterministic_within_session() {
    let ctf = sample_session();
    let first = ctf.offset_of(1, "fb_size");
    let second = ctf.offset_of(1, "fb_size");
    assert_eq!(first, second);
    assert_eq!(first.unwrap(), 8);
}

#[test]
fn offset_of_unaligned_member_fails_with_alignment_error() {
    let ctf = sample_session();
    assert_eq!(ctf.offset_of(1, "crooked"), Err(Error::AlignmentError));
}

#[test]
fn offset_of_never_rounds_an_unaligned_offset() {
    // Bit offset 12 would round to byte 1; the resolution must fail instead.
    let ctf = Ctf::open(vec![struct_record("s", vec![member("m", 0, 12)])]).unwrap();
    let r = ctf.offset_of(0, "m");
    assert!(r.is_err());
    assert_eq!(r, Err(Error::AlignmentError));
}

#[test]
fn offset_of_takes_the_first_matching_member() {
    let ctf =
        Ctf::open(vec![struct_record("s", vec![member("m", 0, 16), member("m", 0, 32)])]).unwrap();
    assert_eq!(ctf.offset_of(0, "m").unwrap(), 2);
}

#[test]
fn offset_of_missing_member_fails_with_not_found() {
    let ctf = sample_session();
    assert_eq!(ctf.offset_of(1, "nonesuch"), Err(Error::NotFound));
}

#[test]
fn offset_of_invalid_id_fails_with_iteration_error() {
    let ctf = sample_session();
    assert_eq!(ctf.offset_of(17, "fb"), Err(Error::IterationError));
}

#[test]
fn members_returns_declaration_order() {
    let ctf = sample_session();
    let ms = ctf.members(1).unwrap();
    let names: Vec<&str> = ms.iter().map(|m| m.name.as_str()).collect();
    assert_eq!(names, vec!["fb", "fb_size", "screen", "crooked"]);
    let offsets: Vec<usize> = ms.iter().map(|m| m.offset).collect();
    assert_eq!(offsets, vec![0, 64, 128, 12]);
}

#[test]
fn members_of_memberless_record_fails_with_iteration_error() {
    let ctf = sample_session();
    assert_eq!(ctf.members(0).err(), Some(Error::IterationError));
    assert_eq!(ctf.members(42).err(), Some(Error::IterationError));
}

#[test]
fn lookup_struct_finds_first_struct_with_the_name() {
    let ctf = sample_session();
    assert_eq!(ctf.lookup_struct("struct fb_info").unwrap(), 1);
    assert_eq!(ctf.lookup_struct("struct fb_info_pixel_coord").unwrap(), 2);
}

#[test]
fn lookup_struct_ignores_non_struct_records_with_the_name() {
    let records = vec![
        TypeRecord { kind: CTF_K_POINTER, name: Some("s".to_string()), members: None },
        struct_record("s", vec![]),
    ];
    let ctf = Ctf::open(records).unwrap();
    assert_eq!(ctf.lookup_struct("s").unwrap(), 1);
}

#[test]
fn lookup_struct_unknown_name_fails_with_not_found() {
    let ctf = sample_session();
    let r = ctf.lookup_struct("struct nonesuch");
    assert_eq!(r, Err(Error::NotFound));
    // And never an id from the valid range:
    assert!(r.is_err());
}

#[test]
fn lookup_struct_fails_when_any_struct_name_is_unresolvable() {
    let records = vec![
        struct_record("wanted", vec![]),
        TypeRecord { kind: CTF_K_STRUCT, name: None, members: Some(vec![]) },
    ];
    let ctf = Ctf::open(records).unwrap();
    assert_eq!(ctf.lookup_struct("wanted"), Err(Error::NameResolutionError));
}

#[test]
fn name_of_type_resolves_and_fails() {
    let ctf = sample_session();
    assert_eq!(ctf.name_of_type(0).unwrap(), "int");
    assert_eq!(ctf.name_of_type(1).unwrap(), "struct fb_info");
    assert_eq!(ctf.name_of_type(9).err(), Some(Error::NameResolutionError));
    let nameless = Ctf::open(vec![TypeRecord { kind: CTF_K_STRUCT, name: None, members: None }])
        .unwrap();
    assert_eq!(nameless.name_of_type(0).err(), Some(Error::NameResolutionError));
}
