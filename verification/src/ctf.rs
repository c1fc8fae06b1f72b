//! Type-info reader.
//!
//! A [`Ctf`] session holds the records of a compact type-description
//! container: for every dense type id in `[0, max_id)` a kind tag, an
//! optional display name (absent when the container cannot produce one), and,
//! for structured kinds, the member descriptors in declaration order.  The
//! caller that parses the container hands the records in as plain values;
//! every query below is verified against them.

use vstd::prelude::*;

use crate::Error;

verus! {

/// Kind tag: unknown type, used for padding.
pub const CTF_K_UNKNOWN: i32 = 0;

/// Kind tag: integer type.
pub const CTF_K_INTEGER: i32 = 1;

/// Kind tag: floating-point type.
pub const CTF_K_FLOAT: i32 = 2;

/// Kind tag: pointer to a referenced type.
pub const CTF_K_POINTER: i32 = 3;

/// Kind tag: array type.
pub const CTF_K_ARRAY: i32 = 4;

/// Kind tag: function type.
pub const CTF_K_FUNCTION: i32 = 5;

/// Kind tag: structured type with named, offset-located members.
pub const CTF_K_STRUCT: i32 = 6;

/// Kind tag: union type.
pub const CTF_K_UNION: i32 = 7;

/// Kind tag: enumeration type.
pub const CTF_K_ENUM: i32 = 8;

/// Kind tag: forward declaration.
pub const CTF_K_FORWARD: i32 = 9;

/// Kind tag: typedef of a base type.
pub const CTF_K_TYPEDEF: i32 = 10;

/// Kind tag: volatile-qualified base type.
pub const CTF_K_VOLATILE: i32 = 11;

/// Kind tag: const-qualified base type.
pub const CTF_K_CONST: i32 = 12;

/// Kind tag: restrict-qualified base type.
pub const CTF_K_RESTRICT: i32 = 13;

/// Largest possible kind tag; a record with a larger (or negative) tag marks
/// a corrupt container.
pub const CTF_K_MAX: i32 = 31;

/// One member of a structured type: its name, the id of the referenced type,
/// and its offset from the start of the structure in bits (not assumed to be
/// byte-aligned, and not assumed sorted).
pub struct Member {
    pub name: String,
    pub type_: usize,
    pub offset: usize,
}

impl Clone for Member {
    fn clone(&self) -> (r: Member)
        ensures
            r == *self,
    {
        Member { name: self.name.clone(), type_: self.type_, offset: self.offset }
    }
}

/// One record of the type table: the kind tag, the display name if the
/// container can produce one, and the direct members in declaration order if
/// a member walk over the record succeeds.
pub struct TypeRecord {
    pub kind: i32,
    pub name: Option<String>,
    pub members: Option<Vec<Member>>,
}

/// True when a record's kind tag lies in the closed tag set.
pub open spec fn kind_ok(r: TypeRecord) -> bool {
    0 <= r.kind <= CTF_K_MAX
}

/// Well-formedness of a whole type table: every kind tag is in range.
pub open spec fn ctf_wf(types: Seq<TypeRecord>) -> bool {
    forall|i: int| 0 <= i < types.len() ==> kind_ok(#[trigger] types[i])
}

/// True when record `i` is of struct kind but its name cannot be resolved.
pub open spec fn struct_name_missing_at(types: Seq<TypeRecord>, i: int) -> bool {
    types[i].kind == CTF_K_STRUCT && types[i].name is None
}

/// True when some struct record of the table has no resolvable name; a scan
/// over all struct records then fails before any name is compared.
pub open spec fn missing_struct_name(types: Seq<TypeRecord>) -> bool {
    exists|i: int| 0 <= i < types.len() && #[trigger] struct_name_missing_at(types, i)
}

/// True when record `r` is of struct kind and carries exactly the name
/// `name`.
pub open spec fn is_struct_match(r: TypeRecord, name: Seq<char>) -> bool {
    r.kind == CTF_K_STRUCT && (r.name matches Some(n) && n@ == name)
}

/// The first id at or after `i` whose record is a struct named `name`.
pub open spec fn find_struct_from(types: Seq<TypeRecord>, name: Seq<char>, i: nat) -> Result<
    usize,
    Error,
>
    decreases types.len() - i,
{
    if i >= types.len() {
        Err(Error::NotFound)
    } else if is_struct_match(types[i as int], name) {
        Ok(i as usize)
    } else {
        find_struct_from(types, name, i + 1)
    }
}

/// What a struct lookup returns: the scan resolves the name of every struct
/// record first, so one unresolvable name fails the whole lookup; otherwise
/// the first struct record named `name` wins, and a table without such a
/// record reports that the name is absent.
pub open spec fn lookup_struct_spec(types: Seq<TypeRecord>, name: Seq<char>) -> Result<
    usize,
    Error,
> {
    if missing_struct_name(types) {
        Err(Error::NameResolutionError)
    } else {
        find_struct_from(types, name, 0)
    }
}

/// What a member walk returns: the members of record `id` in declaration
/// order, or the iteration error when the id is out of range or the walk
/// over the record reported a nonzero status.
pub open spec fn members_spec(types: Seq<TypeRecord>, id: usize) -> Result<Seq<Member>, Error> {
    if id < types.len() {
        match types[id as int].members {
            Some(ms) => Ok(ms@),
            None => Err(Error::IterationError),
        }
    } else {
        Err(Error::IterationError)
    }
}

/// What a name resolution returns: the display name of record `id`, or the
/// name-resolution error when the id is out of range or the record has no
/// name.
pub open spec fn type_name_spec(types: Seq<TypeRecord>, id: usize) -> Result<Seq<char>, Error> {
    if id < types.len() {
        match types[id as int].name {
            Some(n) => Ok(n@),
            None => Err(Error::NameResolutionError),
        }
    } else {
        Err(Error::NameResolutionError)
    }
}

/// The byte offset derived from the first member at or after `i` named
/// `name`: defined only when that member's bit offset is a multiple of 8,
/// the alignment error otherwise, and the not-found error when no member
/// matches.
pub open spec fn find_member_from(ms: Seq<Member>, name: Seq<char>, i: nat) -> Result<usize, Error>
    decreases ms.len() - i,
{
    if i >= ms.len() {
        Err(Error::NotFound)
    } else if ms[i as int].name@ == name {
        if ms[i as int].offset % 8 == 0 {
            Ok((ms[i as int].offset / 8) as usize)
        } else {
            Err(Error::AlignmentError)
        }
    } else {
        find_member_from(ms, name, i + 1)
    }
}

/// What a member-offset resolution returns: the member walk of `id`
/// followed by the byte-offset derivation of the first member named `name`.
pub open spec fn offset_of_spec(types: Seq<TypeRecord>, id: usize, name: Seq<char>) -> Result<
    usize,
    Error,
> {
    match members_spec(types, id) {
        Ok(ms) => find_member_from(ms, name, 0),
        Err(e) => Err(e),
    }
}

/// Law: member-offset resolution is deterministic.  Within one session,
/// repeated calls with the same type id and member name return the same
/// result, because each call returns exactly the value of one function of
/// the session's table.
pub proof fn lemma_offset_of_deterministic(
    types: Seq<TypeRecord>,
    id: usize,
    name: Seq<char>,
    r1: Result<usize, Error>,
    r2: Result<usize, Error>,
)
    requires
        r1 == offset_of_spec(types, id, name),
        r2 == offset_of_spec(types, id, name),
    ensures
        r1 == r2,
{
}

/// Helper: a byte-offset search that starts before the first matching
/// member reaches that member.
proof fn lemma_find_member_reaches(ms: Seq<Member>, name: Seq<char>, i: nat, k: nat)
    requires
        i <= k < ms.len(),
        ms[k as int].name@ == name,
        forall|j: int| i <= j < k ==> ms[j].name@ != name,
    ensures
        find_member_from(ms, name, i) == find_member_from(ms, name, k),
    decreases k - i,
{
    if i < k {
        lemma_find_member_reaches(ms, name, i + 1, k);
    }
}

/// Law: when the first member named `name` of struct `id` sits at a bit
/// offset that is not a multiple of 8, the offset resolution fails with the
/// alignment error; no rounded byte offset is ever produced.
pub proof fn lemma_offset_of_alignment(types: Seq<TypeRecord>, id: usize, name: Seq<char>, k: nat)
    requires
        members_spec(types, id) matches Ok(ms) && (k < ms.len() && ms[k as int].name@ == name && (
        forall|j: int| 0 <= j < k ==> ms[j].name@ != name) && ms[k as int].offset % 8 != 0),
    ensures
        offset_of_spec(types, id, name) == Err::<usize, Error>(Error::AlignmentError),
{
    let ms = members_spec(types, id)->Ok_0;
    lemma_find_member_reaches(ms, name, 0, k);
}

/// Helper: when a struct-name search from `i` succeeds, the returned id is
/// in the valid range and its record is a struct with that exact name.
proof fn lemma_find_struct_from_ok(types: Seq<TypeRecord>, name: Seq<char>, i: nat)
    requires
        types.len() <= usize::MAX,
    ensures
        find_struct_from(types, name, i) matches Ok(id) ==> i <= id < types.len()
            && is_struct_match(types[id as int], name),
    decreases types.len() - i,
{
    if i < types.len() && !is_struct_match(types[i as int], name) {
        lemma_find_struct_from_ok(types, name, i + 1);
    }
}

/// Helper: a struct-name search over a range without a match fails with the
/// not-found error.
proof fn lemma_find_struct_from_none(types: Seq<TypeRecord>, name: Seq<char>, i: nat)
    requires
        forall|j: int| i <= j < types.len() ==> !is_struct_match(#[trigger] types[j], name),
    ensures
        find_struct_from(types, name, i) == Err::<usize, Error>(Error::NotFound),
    decreases types.len() - i,
{
    if i < types.len() {
        lemma_find_struct_from_none(types, name, i + 1);
    }
}

/// Law: a struct lookup never invents an id.  Whenever the lookup succeeds,
/// the returned id lies in the valid range `[0, max_id)` and names a struct
/// record carrying exactly the requested name; so for a name that no struct
/// record carries, no id from the valid range can come back.
pub proof fn lemma_lookup_struct_ok_in_range(types: Seq<TypeRecord>, name: Seq<char>)
    requires
        types.len() <= usize::MAX,
    ensures
        lookup_struct_spec(types, name) matches Ok(id) ==> id < types.len() && is_struct_match(
            types[id as int],
            name,
        ),
{
    lemma_find_struct_from_ok(types, name, 0);
}

/// Law: for a struct name that no record of the table carries, the lookup
/// fails with the not-found error, provided every struct record's name
/// resolves (one unresolvable struct name fails the whole scan with the
/// name-resolution error instead).
pub proof fn lemma_lookup_struct_not_found(types: Seq<TypeRecord>, name: Seq<char>)
    requires
        !missing_struct_name(types),
        forall|j: int| 0 <= j < types.len() ==> !is_struct_match(#[trigger] types[j], name),
    ensures
        lookup_struct_spec(types, name) == Err::<usize, Error>(Error::NotFound),
{
    lemma_find_struct_from_none(types, name, 0);
}

/// String comparison by contents.
pub(crate) fn str_eq(a: &str, b: &str) -> (r: bool)
    ensures
        r == (a@ == b@),
{
    let sa: String = a.to_owned();
    let sb: String = b.to_owned();
    sa == sb
}

/// An open type-info session: a table of type records, indexed by dense type
/// ids in `[0, max_id)`.
pub struct Ctf {
    pub types: Vec<TypeRecord>,
}

impl View for Ctf {
    type V = Seq<TypeRecord>;

    open spec fn view(&self) -> Seq<TypeRecord> {
        self.types@
    }
}

impl Ctf {
    /// Attaches to a parsed type-info container.  Rejects a table whose kind
    /// tags fall outside the closed tag set, as the underlying parser would
    /// reject a corrupt container.
    pub fn open(types: Vec<TypeRecord>) -> (r: Result<Ctf, Error>)
        ensures
            r is Ok <==> ctf_wf(types@),
            r matches Ok(c) ==> c@ == types@,
            r is Err ==> r == Err::<Ctf, Error>(Error::FormatError),
    {
        let mut i: usize = 0;
        while i < types.len()
            invariant
                i <= types@.len(),
                forall|j: int| 0 <= j < i ==> kind_ok(#[trigger] types@[j]),
            decreases types@.len() - i,
        {
            if types[i].kind < 0 || types[i].kind > CTF_K_MAX {
                return Err(Error::FormatError);
            }
            i += 1;
        }
        Ok(Ctf { types })
    }

    /// The maximum type id: every id in `[0, max_id)` names a record.
    pub fn max_id(&self) -> (n: usize)
        ensures
            n == self@.len(),
    {
        self.types.len()
    }

    /// Resolves the display name of type `id`.
    pub fn name_of_type(&self, id: usize) -> (r: Result<String, Error>)
        ensures
            match r {
                Ok(s) => type_name_spec(self@, id) == Ok::<Seq<char>, Error>(s@),
                Err(e) => type_name_spec(self@, id) == Err::<Seq<char>, Error>(e),
            },
    {
        if id >= self.types.len() {
            return Err(Error::NameResolutionError);
        }
        match &self.types[id].name {
            Some(s) => Ok(s.clone()),
            None => Err(Error::NameResolutionError),
        }
    }

    /// Walks the direct members of type `id` and returns them in declaration
    /// order.
    pub fn members(&self, id: usize) -> (r: Result<Vec<Member>, Error>)
        ensures
            match r {
                Ok(v) => members_spec(self@, id) == Ok::<Seq<Member>, Error>(v@),
                Err(e) => members_spec(self@, id) == Err::<Seq<Member>, Error>(e),
            },
    {
        if id >= self.types.len() {
            return Err(Error::IterationError);
        }
        match &self.types[id].members {
            Some(v) => {
                let mut out: Vec<Member> = Vec::new();
                let mut i: usize = 0;
                while i < v.len()
                    invariant
                        i <= v@.len(),
                        out@ == v@.subrange(0, i as int),
                    decreases v@.len() - i,
                {
                    out.push(v[i].clone());
                    proof {
                        assert(out@ =~= v@.subrange(0, i + 1));
                    }
                    i += 1;
                }
                proof {
                    assert(out@ =~= v@);
                }
                Ok(out)
            },
            None => Err(Error::IterationError),
        }
    }

    /// Scans every id in `[0, max_id)` for a struct record named `name`.
    /// The scan resolves the names of all struct records, so it fails when
    /// any struct record's name cannot be produced; with all names resolved
    /// it returns the first exact match and reports an absent name
    /// otherwise.
    pub fn lookup_struct(&self, name: &str) -> (r: Result<usize, Error>)
        ensures
            r == lookup_struct_spec(self@, name@),
    {
        let mut i: usize = 0;
        while i < self.types.len()
            invariant
                i <= self@.len(),
                forall|j: int| 0 <= j < i ==> !#[trigger] struct_name_missing_at(self@, j),
            decreases self@.len() - i,
        {
            if self.types[i].kind == CTF_K_STRUCT && self.types[i].name.is_none() {
                proof {
                    assert(struct_name_missing_at(self@, i as int));
                }
                return Err(Error::NameResolutionError);
            }
            i += 1;
        }
        proof {
            assert(!missing_struct_name(self@));
        }

        let mut i: usize = 0;
        while i < self.types.len()
            invariant
                i <= self@.len(),
                !missing_struct_name(self@),
                find_struct_from(self@, name@, 0) == find_struct_from(self@, name@, i as nat),
            decreases self@.len() - i,
        {
            let rec = &self.types[i];
            if rec.kind == CTF_K_STRUCT {
                match &rec.name {
                    Some(n) => {
                        if str_eq(n.as_str(), name) {
                            proof {
                                assert(is_struct_match(self@[i as int], name@));
                            }
                            return Ok(i);
                        }
                    },
                    None => {},
                }
            }
            proof {
                assert(!is_struct_match(self@[i as int], name@));
                assert(find_struct_from(self@, name@, i as nat) == find_struct_from(
                    self@,
                    name@,
                    (i + 1) as nat,
                ));
            }
            i += 1;
        }
        Err(Error::NotFound)
    }

    /// Resolves the byte offset of the first member of struct `struct_id`
    /// named `member_name`; the member's bit offset must be byte-aligned.
    pub fn offset_of(&self, struct_id: usize, member_name: &str) -> (r: Result<usize, Error>)
        ensures
            r == offset_of_spec(self@, struct_id, member_name@),
    {
        if struct_id >= self.types.len() {
            return Err(Error::IterationError);
        }
        let ms = match &self.types[struct_id].members {
            Some(v) => v,
            None => {
                return Err(Error::IterationError);
            },
        };
        let mut i: usize = 0;
        while i < ms.len()
            invariant
                i <= ms@.len(),
                members_spec(self@, struct_id) == Ok::<Seq<Member>, Error>(ms@),
                find_member_from(ms@, member_name@, 0) == find_member_from(
                    ms@,
                    member_name@,
                    i as nat,
                ),
            decreases ms@.len() - i,
        {
            if str_eq(ms[i].name.as_str(), member_name) {
                proof {
                    assert(ms@[i as int].name@ == member_name@);
                }
                if ms[i].offset % 8 == 0 {
                    proof {
                        assert(find_member_from(ms@, member_name@, i as nat) == Ok::<
                            usize,
                            Error,
                        >((ms@[i as int].offset / 8) as usize));
                    }
                    return Ok(ms[i].offset / 8);
                } else {
                    proof {
                        assert(find_member_from(ms@, member_name@, i as nat) == Err::<
                            usize,
                            Error,
                        >(Error::AlignmentError));
                    }
                    return Err(Error::AlignmentError);
                }
            }
            proof {
                assert(find_member_from(ms@, member_name@, i as nat) == find_member_from(
                    ms@,
                    member_name@,
                    (i + 1) as nat,
                ));
            }
            i += 1;
        }
        Err(Error::NotFound)
    }
}

} // verus!
