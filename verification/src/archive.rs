//! The external bitcode loader's parsing half: reading the member table of an
//! upstream library archive, and recognizing which members hold serialized
//! units. The archive format itself is parsed by the `object` crate behind
//! trusted declarations; everything downstream of the raw member table is
//! verified.

use vstd::prelude::*;

use crate::errors::LtoError;

verus! {

/// An upstream library archive, held as the raw bytes of the archive file.
/// The verifier sees nothing inside; the `object` crate reads it.
#[verifier::external_body]
pub struct RlibArchive {
    data: Vec<u8>,
}

/// What an archive holds: its member table as (member name, member bytes)
/// pairs, in archive order, as `object`'s reader reports them.
pub uninterp spec fn archive_members(a: RlibArchive) -> Seq<(Seq<u8>, Seq<u8>)>;

/// The member table as a function of the archive file's bytes alone: parsing
/// the same bytes always yields the same members.
pub uninterp spec fn archive_members_of(data: Seq<u8>) -> Seq<(Seq<u8>, Seq<u8>)>;

/// Whether `object`'s archive reader accepts these bytes as an archive at
/// all. Parsing is a pure function of the bytes, so its outcome has a name.
pub uninterp spec fn archive_parse_ok(data: Seq<u8>) -> bool;

/// Whether the full member walk over these bytes succeeds: every member's
/// header parses through to the end of the table and every member's bytes
/// can be read. A function of the bytes alone.
pub uninterp spec fn archive_extract_ok(data: Seq<u8>) -> bool;

/// The same fact as `archive_extract_ok`, carried on the parsed archive:
/// walking this archive's members raises no error.
pub uninterp spec fn archive_members_ok(a: RlibArchive) -> bool;

impl RlibArchive {
    /// Relies on `object::read::archive::ArchiveFile::parse`: validates the
    /// archive's magic and special members, succeeding exactly on the bytes
    /// the reader accepts. The member table is a pure function of the bytes,
    /// and every member carries its own fixed-size header, so an archive
    /// holds fewer members than it has bytes.
    #[verifier::external_body]
    pub fn parse(data: Vec<u8>) -> (r: Result<RlibArchive, LtoError>)
        ensures
            (r matches Ok(_)) <==> archive_parse_ok(data@),
            r matches Err(e) ==> e == LtoError::ArchiveParse,
            r matches Ok(a) ==> archive_members(a) == archive_members_of(data@)
                && archive_members_ok(a) == archive_extract_ok(data@),
            r matches Ok(a) ==> archive_members(a).len() <= data@.len() && data@.len()
                <= usize::MAX,
    {
        match object::read::archive::ArchiveFile::parse(&data[..]) {
            Ok(_) => Ok(RlibArchive { data }),
            Err(_) => Err(LtoError::ArchiveParse),
        }
    }

    /// Relies on `object`'s `ArchiveFile::members`, `ArchiveMember::name` and
    /// `ArchiveMember::data`: hands out the member at the given position of
    /// the member table, or `None` past its end. An archive whose member walk
    /// is clean never yields an error; one whose walk fails — a member header
    /// that cannot be parsed, or member bytes that cannot be read — yields
    /// the distinct extraction error at the failure.
    #[verifier::external_body]
    pub fn member_at(&self, index: usize) -> (r: Result<Option<(Vec<u8>, Vec<u8>)>, LtoError>)
        ensures
            r matches Ok(m) && m matches Some(m) ==> index < archive_members(*self).len()
                && m.0@ == archive_members(*self)[index as int].0 && m.1@ == archive_members(
                *self,
            )[index as int].1,
            r matches Ok(m) && m matches None ==> index >= archive_members(*self).len(),
            archive_members_ok(*self) ==> !(r matches Err(_)),
            r matches Err(e) ==> !archive_members_ok(*self) && (e == LtoError::ArchiveParse || (e
                matches LtoError::BitcodeFromArchive { .. })),
    {
        let archive = match object::read::archive::ArchiveFile::parse(&self.data[..]) {
            Ok(archive) => archive,
            Err(_) => return Err(LtoError::ArchiveParse),
        };
        match archive.members().nth(index) {
            None => Ok(None),
            Some(Err(_)) => Err(LtoError::ArchiveParse),
            Some(Ok(member)) => match member.data(&self.data[..]) {
                Ok(bytes) => Ok(Some((member.name().to_vec(), bytes.to_vec()))),
                Err(_) => Err(LtoError::BitcodeFromArchive { member: member.name().to_vec() }),
            },
        }
    }
}

/// The view of a list of owned (name, bytes) pairs.
pub open spec fn pairs_view(pairs: Seq<(Vec<u8>, Vec<u8>)>) -> Seq<(Seq<u8>, Seq<u8>)> {
    pairs.map_values(|p: (Vec<u8>, Vec<u8>)| (p.0@, p.1@))
}

/// Walks the archive's member table and collects every member. An archive
/// whose walk is clean is collected whole; an error is only ever reported of
/// one whose walk genuinely fails.
pub fn collect_members(archive: &RlibArchive) -> (r: Result<Vec<(Vec<u8>, Vec<u8>)>, LtoError>)
    requires
        archive_members(*archive).len() <= usize::MAX,
    ensures
        r matches Ok(v) ==> pairs_view(v@) == archive_members(*archive),
        archive_members_ok(*archive) ==> r matches Ok(_),
        r matches Err(e) ==> !archive_members_ok(*archive) && (e == LtoError::ArchiveParse || (e
            matches LtoError::BitcodeFromArchive { .. })),
{
    let ghost contents = archive_members(*archive);
    let mut out: Vec<(Vec<u8>, Vec<u8>)> = Vec::new();
    let mut i: usize = 0;
    loop
        invariant
            i <= contents.len() <= usize::MAX,
            contents == archive_members(*archive),
            pairs_view(out@) == contents.take(i as int),
        decreases contents.len() - i,
    {
        match archive.member_at(i) {
            Err(e) => {
                return Err(e);
            },
            Ok(None) => {
                proof {
                    assert(contents.take(i as int) =~= contents);
                }
                return Ok(out);
            },
            Ok(Some(member)) => {
                let ghost before = pairs_view(out@);
                out.push(member);
                proof {
                    assert(pairs_view(out@) =~= before.push(contents[i as int]));
                    assert(contents.take(i + 1 as int) =~= contents.take(i as int).push(
                        contents[i as int],
                    ));
                }
                i = i + 1;
            },
        }
    }
}

/// The suffix that marks an archive member as a serialized unit of this
/// compiler: an object file whose inner extension names the codegen unit.
pub open spec fn spec_rust_object_suffix() -> Seq<u8> {
    seq![46u8, 114u8, 99u8, 103u8, 117u8, 46u8, 111u8]
}

/// Whether a member name follows the embedded-unit naming convention: it ends
/// in the unit-object suffix and has a non-empty stem before it.
pub open spec fn spec_looks_like_rust_object_file(name: Seq<u8>) -> bool {
    name.len() >= 8 && name.skip(name.len() - 7) == spec_rust_object_suffix()
}

/// Decides whether an archive member holds a serialized unit, by its name.
pub fn looks_like_rust_object_file(name: &Vec<u8>) -> (r: bool)
    ensures
        r == spec_looks_like_rust_object_file(name@),
{
    if name.len() < 8 {
        return false;
    }
    let start = name.len() - 7;
    let suffix: Vec<u8> = vec![46u8, 114u8, 99u8, 103u8, 117u8, 46u8, 111u8];
    assert(suffix@ =~= spec_rust_object_suffix());
    let mut i: usize = 0;
    while i < 7
        invariant
            i <= 7,
            start == name@.len() - 7,
            start + 7 <= usize::MAX,
            name@.len() >= 8,
            suffix@ == spec_rust_object_suffix(),
            forall|j: int| 0 <= j < i ==> name@[start + j] == spec_rust_object_suffix()[j],
        decreases 7 - i,
    {
        if name[start + i] != suffix[i] {
            assert(name@.skip(start as int)[i as int] != spec_rust_object_suffix()[i as int]);
            return false;
        }
        i = i + 1;
    }
    proof {
        assert(name@.skip(start as int) =~= spec_rust_object_suffix());
    }
    true
}

} // verus!
