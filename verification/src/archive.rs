//! Taking the members of a managed release out of a downloaded archive.
//!
//! The archive formats are decoded by the `zip`, `tar` and `xz2` crates; what
//! comes out is a listing (each entry's name and bytes, in archive order, up
//! to the first entry that could not be read) on which the search for the
//! members runs.
use vstd::prelude::*;

use std::io::Read;

use crate::managed::{
    archive_entry_matches, entry_matches, first_missing, first_missing_member, lemma_first_missing,
    lemma_tar_member_index, suffixes_of, tar_member_for, tar_member_index, zip_after_entry, zip_begin, ArchiveKind,
    ArchiveMember, MemberModel, ZipStep,
};
use crate::pipeline::ExtractFailure;

verus! {

// ---------------------------------------------------------------------------
// What the archive crates give
// ---------------------------------------------------------------------------

/// The listing of a tar.xz archive with the bytes `bytes`: the entries (name
/// and contents) in archive order up to the first one that could not be
/// read, and the message of that failure.
pub uninterp spec fn tar_xz_entries(bytes: Seq<u8>) -> (Seq<(Seq<char>, Seq<u8>)>, Option<Seq<char>>);

/// The listing of a zip archive with the bytes `bytes`: the message of the
/// failure to open it, or its entries (name and contents) in index order up
/// to the first one that could not be read, and the message of that failure.
pub uninterp spec fn zip_entries(bytes: Seq<u8>) -> Result<
    (Seq<(Seq<char>, Seq<u8>)>, Option<Seq<char>>),
    Seq<char>,
>;

/// The entries of a listing as plain values.
pub open spec fn listing_view(v: Seq<(String, Vec<u8>)>) -> Seq<(Seq<char>, Seq<u8>)> {
    v.map_values(|e: (String, Vec<u8>)| (e.0@, e.1@))
}

/// The failure message of a listing, if any.
pub open spec fn failure_view(f: Option<String>) -> Option<Seq<char>> {
    match f {
        Some(d) => Some(d@),
        None => None,
    }
}

/// Reads a tar.xz archive held in memory: `xz2::read::XzDecoder` unpacks the
/// stream and `tar::Archive::entries` walks it (`entries` fails only on an
/// archive that is no longer at its start, which a new one is); each entry's
/// `path` (made a string with `to_string_lossy`) and contents (`read_to_end`)
/// are listed until an entry, its path or its contents cannot be read, whose
/// error message ends the listing. A failure to read the contents of an
/// entry therefore counts as a failure there, whether or not the entry is a
/// member. Its result is named `tar_xz_entries`.
#[verifier::external_body]
fn read_tar_xz(bytes: &[u8]) -> (r: (Vec<(String, Vec<u8>)>, Option<String>))
    ensures
        (listing_view(r.0@), failure_view(r.1)) == tar_xz_entries(bytes@),
{
    let mut listing = Vec::new();
    let mut archive = tar::Archive::new(xz2::read::XzDecoder::new(bytes));
    for entry in archive.entries().into_iter().flatten() {
        let mut entry = match entry { Ok(entry) => entry, Err(e) => return (listing, Some(e.to_string())) };
        let name = match entry.path() { Ok(p) => p.to_string_lossy().into_owned(), Err(e) => return (listing, Some(e.to_string())) };
        let mut data = Vec::new();
        if let Err(e) = entry.read_to_end(&mut data) { return (listing, Some(e.to_string())) }
        listing.push((name, data));
    }
    (listing, None)
}

/// The listing of a zip archive with its views.
pub open spec fn zip_listing_view(r: Result<(Vec<(String, Vec<u8>)>, Option<String>), String>) -> Result<
    (Seq<(Seq<char>, Seq<u8>)>, Option<Seq<char>>),
    Seq<char>,
> {
    match r {
        Ok((entries, failure)) => Ok((listing_view(entries@), failure_view(failure))),
        Err(d) => Err(d@),
    }
}

/// Reads a zip archive held in memory: `zip::ZipArchive::new` opens it (its
/// error message is the `Err`), and for each index below `len` the entry of
/// `by_index` is listed with its `name` and contents (`read_to_end`) until an
/// entry or its contents cannot be read, whose error message ends the
/// listing. A failure to read the contents of an entry therefore counts as a
/// failure at that index, whether or not the entry is a member. Its result is
/// named `zip_entries`.
#[verifier::external_body]
fn read_zip(bytes: &[u8]) -> (r: Result<(Vec<(String, Vec<u8>)>, Option<String>), String>)
    ensures
        zip_listing_view(r) == zip_entries(bytes@),
{
    let mut zip = match zip::ZipArchive::new(std::io::Cursor::new(bytes)) {
        Ok(zip) => zip,
        Err(e) => return Err(e.to_string()),
    };
    let mut listing = Vec::new();
    for index in 0..zip.len() {
        let mut entry = match zip.by_index(index) { Ok(entry) => entry, Err(e) => return Ok((listing, Some(e.to_string()))) };
        let name = entry.name().to_string();
        let mut data = Vec::new();
        if let Err(e) = entry.read_to_end(&mut data) { return Ok((listing, Some(e.to_string()))) }
        listing.push((name, data));
    }
    Ok((listing, None))
}

// ---------------------------------------------------------------------------
// The search for the members
// ---------------------------------------------------------------------------

/// Why an archive could not be unpacked, as a mathematical value.
pub enum ExtractFailureModel {
    Io(Seq<char>),
    MemberMissing(int),
}

/// The result of an extraction as a mathematical value: the files taken
/// (saved name and contents), or the failure.
pub open spec fn extraction_view(r: Result<Vec<(String, Vec<u8>)>, ExtractFailure>) -> Result<
    Seq<(Seq<char>, Seq<u8>)>,
    ExtractFailureModel,
> {
    match r {
        Ok(files) => Ok(listing_view(files@)),
        Err(ExtractFailure::Io(d)) => Err(ExtractFailureModel::Io(d@)),
        Err(ExtractFailure::MemberMissing(i)) => Err(ExtractFailureModel::MemberMissing(i as int)),
    }
}

/// The members as mathematical values.
pub open spec fn members_view(members: Seq<ArchiveMember>) -> Seq<MemberModel> {
    members.map_values(|m: ArchiveMember| m@)
}

/// The suffixes of the members.
pub open spec fn member_suffixes(members: Seq<MemberModel>) -> Seq<Seq<char>> {
    members.map_values(|m: MemberModel| m.suffix)
}

/// The members found once a tar entry named `name` was read: the first
/// member not yet found whose suffix matches the name is found too.
pub open spec fn tar_found_after(members: Seq<MemberModel>, found: Seq<bool>, name: Seq<char>) -> Seq<bool> {
    match tar_member_index(found, member_suffixes(members), name, 0) {
        Some(i) => found.update(i, true),
        None => found,
    }
}

/// The files taken once the tar entry `entry` was read: the entry's contents
/// under the saved name of the member it fills, if any.
pub open spec fn tar_taken_after(
    members: Seq<MemberModel>,
    found: Seq<bool>,
    entry: (Seq<char>, Seq<u8>),
    taken: Seq<(Seq<char>, Seq<u8>)>,
) -> Seq<(Seq<char>, Seq<u8>)> {
    match tar_member_index(found, member_suffixes(members), entry.0, 0) {
        Some(i) => taken.push((members[i].destination_name, entry.1)),
        None => taken,
    }
}

/// The search of a tar listing from entry `k`, with the members `found` and
/// the files `taken` so far. Each entry fills the first member not yet found
/// whose suffix matches its name, and the search stops as soon as every
/// member is found, so that a read failure further on is not reached. At
/// the end of the listing its read failure is reported, or else the first
/// member not found.
pub open spec fn tar_scan(
    entries: Seq<(Seq<char>, Seq<u8>)>,
    failure: Option<Seq<char>>,
    members: Seq<MemberModel>,
    found: Seq<bool>,
    taken: Seq<(Seq<char>, Seq<u8>)>,
    k: int,
) -> Result<Seq<(Seq<char>, Seq<u8>)>, ExtractFailureModel>
    decreases entries.len() - k,
{
    if k >= entries.len() {
        match failure {
            Some(d) => Err(ExtractFailureModel::Io(d)),
            None => match first_missing(found, 0) {
                Some(i) => Err(ExtractFailureModel::MemberMissing(i)),
                None => Ok(taken),
            },
        }
    } else {
        let found2 = tar_found_after(members, found, entries[k].0);
        let taken2 = tar_taken_after(members, found, entries[k], taken);
        if first_missing(found2, 0) is None {
            Ok(taken2)
        } else {
            tar_scan(entries, failure, members, found2, taken2, k + 1)
        }
    }
}

/// What a tar listing gives for `members` (see `tar_scan`), from no member
/// found and no file taken.
pub open spec fn tar_extraction(
    listing: (Seq<(Seq<char>, Seq<u8>)>, Option<Seq<char>>),
    members: Seq<MemberModel>,
) -> Result<Seq<(Seq<char>, Seq<u8>)>, ExtractFailureModel> {
    tar_scan(listing.0, listing.1, members, Seq::new(members.len(), |i: int| false), Seq::empty(), 0)
}

/// The search of a zip listing for member `member` from entry `entry`, with
/// the files `taken` so far. The entries are read in order until one matches
/// the member, which takes its contents; then the next member is searched
/// from the first entry. Reaching the end of the listing reports its read
/// failure, or else the member as missing.
pub open spec fn zip_from(
    entries: Seq<(Seq<char>, Seq<u8>)>,
    failure: Option<Seq<char>>,
    members: Seq<MemberModel>,
    member: int,
    entry: int,
    taken: Seq<(Seq<char>, Seq<u8>)>,
) -> Result<Seq<(Seq<char>, Seq<u8>)>, ExtractFailureModel>
    decreases members.len() - member, entries.len() - entry,
{
    if member < 0 || entry < 0 || member >= members.len() {
        Ok(taken)
    } else if entry >= entries.len() {
        match failure {
            Some(d) => Err(ExtractFailureModel::Io(d)),
            None => Err(ExtractFailureModel::MemberMissing(member)),
        }
    } else if entry_matches(entries[entry].0, members[member].suffix) {
        zip_from(
            entries,
            failure,
            members,
            member + 1,
            0,
            taken.push((members[member].destination_name, entries[entry].1)),
        )
    } else {
        zip_from(entries, failure, members, member, entry + 1, taken)
    }
}

/// What a zip listing gives for `members`: the failure to open the archive,
/// or the search of `zip_from` from the first member and entry.
pub open spec fn zip_extraction(
    listing: Result<(Seq<(Seq<char>, Seq<u8>)>, Option<Seq<char>>), Seq<char>>,
    members: Seq<MemberModel>,
) -> Result<Seq<(Seq<char>, Seq<u8>)>, ExtractFailureModel> {
    match listing {
        Err(d) => Err(ExtractFailureModel::Io(d)),
        Ok((entries, failure)) => zip_from(entries, failure, members, 0, 0, Seq::empty()),
    }
}

/// A copy of `bytes`.
fn copy_bytes(bytes: &Vec<u8>) -> (r: Vec<u8>)
    ensures
        r@ == bytes@,
{
    let mut r: Vec<u8> = Vec::new();
    let mut i: usize = 0;
    while i < bytes.len()
        invariant
            i <= bytes@.len(),
            r@ == bytes@.subrange(0, i as int),
        decreases bytes@.len() - i,
    {
        r.push(bytes[i]);
        assert(bytes@.subrange(0, i + 1) == bytes@.subrange(0, i as int).push(bytes@[i as int]));
        i = i + 1;
    }
    assert(bytes@.subrange(0, bytes@.len() as int) == bytes@);
    r
}

/// The file that a listed entry gives for a member: the member's saved name
/// and the entry's contents.
fn take_file(member: &ArchiveMember, entry: &(String, Vec<u8>)) -> (r: (String, Vec<u8>))
    ensures
        r.0@ == member.destination_name@,
        r.1@ == entry.1@,
{
    (member.destination_name.clone(), copy_bytes(&entry.1))
}

/// Searches a tar listing (`entries`, ended by `failure` if any) for
/// `members` (see `tar_extraction`).
pub fn take_tar_members(
    entries: &Vec<(String, Vec<u8>)>,
    failure: &Option<String>,
    members: &Vec<ArchiveMember>,
) -> (r: Result<Vec<(String, Vec<u8>)>, ExtractFailure>)
    ensures
        extraction_view(r) == tar_extraction(
            (listing_view(entries@), failure_view(*failure)),
            members_view(members@),
        ),
{
    let ghost es = listing_view(entries@);
    let ghost fv = failure_view(*failure);
    let ghost ms = members_view(members@);
    let ghost goal = tar_extraction((es, fv), ms);
    let mut found: Vec<bool> = Vec::new();
    let mut j: usize = 0;
    while j < members.len()
        invariant
            j <= members@.len(),
            found@ == Seq::new(j as nat, |i: int| false),
        decreases members@.len() - j,
    {
        found.push(false);
        j = j + 1;
        assert(found@ =~= Seq::new(j as nat, |i: int| false));
    }
    let mut taken: Vec<(String, Vec<u8>)> = Vec::new();
    assert(listing_view(taken@) =~= Seq::<(Seq<char>, Seq<u8>)>::empty());
    let mut k: usize = 0;
    while k < entries.len()
        invariant
            k <= entries@.len(),
            es == listing_view(entries@),
            fv == failure_view(*failure),
            ms == members_view(members@),
            found@.len() == members@.len(),
            members@.len() <= usize::MAX,
            goal == tar_extraction((es, fv), ms),
            tar_scan(es, fv, ms, found@, listing_view(taken@), k as int) == goal,
        decreases entries@.len() - k,
    {
        let ghost found0 = found@;
        let ghost taken0 = listing_view(taken@);
        proof {
            assert(suffixes_of(members@) =~= member_suffixes(ms));
            lemma_tar_member_index(found@, member_suffixes(ms), es[k as int].0, 0);
        }
        assert(es[k as int] == (entries@[k as int].0@, entries@[k as int].1@));
        let name = entries[k].0.as_str();
        let pick = tar_member_for(&found, members, name);
        match pick {
            Some(i) => {
                found.set(i, true);
                assert(ms[i as int] == members@[i as int]@);
                let file = take_file(&members[i], &entries[k]);
                taken.push(file);
                assert(listing_view(taken@) =~= taken0.push((ms[i as int].destination_name, es[k as int].1)));
            },
            None => {},
        }
        assert(found@ =~= tar_found_after(ms, found0, es[k as int].0));
        assert(listing_view(taken@) == tar_taken_after(ms, found0, es[k as int], taken0));
        if first_missing_member(&found).is_none() {
            return Ok(taken);
        }
        k = k + 1;
    }
    match failure {
        Some(d) => Err(ExtractFailure::Io(d.clone())),
        None => {
            proof {
                lemma_first_missing(found@, 0);
            }
            match first_missing_member(&found) {
                Some(i) => Err(ExtractFailure::MemberMissing(i)),
                None => Ok(taken),
            }
        },
    }
}

/// What the search of a zip listing gives from the move `step`.
pub open spec fn zip_outcome(
    step: ZipStep,
    entries: Seq<(Seq<char>, Seq<u8>)>,
    failure: Option<Seq<char>>,
    members: Seq<MemberModel>,
    taken: Seq<(Seq<char>, Seq<u8>)>,
) -> Result<Seq<(Seq<char>, Seq<u8>)>, ExtractFailureModel> {
    match step {
        ZipStep::Read { member, entry } => zip_from(entries, failure, members, member as int, entry as int, taken),
        ZipStep::Missing(m) => match failure {
            Some(d) => Err(ExtractFailureModel::Io(d)),
            None => Err(ExtractFailureModel::MemberMissing(m as int)),
        },
        ZipStep::Done => Ok(taken),
    }
}

/// How many members are left to search from the move `step`.
pub open spec fn zip_members_left(step: ZipStep, members: nat) -> int {
    match step {
        ZipStep::Read { member, .. } => members - member,
        _ => 0,
    }
}

/// How many entries are left to read for the current member from `step`.
pub open spec fn zip_entries_left(step: ZipStep, entries: nat) -> int {
    match step {
        ZipStep::Read { entry, .. } => entries - entry,
        _ => 0,
    }
}

/// Searches a zip listing (`entries`, ended by `failure` if any) for
/// `members` (see `zip_from`), move by move as `zip_begin` and
/// `zip_after_entry` say.
pub fn take_zip_members(
    entries: &Vec<(String, Vec<u8>)>,
    failure: &Option<String>,
    members: &Vec<ArchiveMember>,
) -> (r: Result<Vec<(String, Vec<u8>)>, ExtractFailure>)
    ensures
        extraction_view(r) == zip_from(
            listing_view(entries@),
            failure_view(*failure),
            members_view(members@),
            0,
            0,
            Seq::empty(),
        ),
{
    let ghost es = listing_view(entries@);
    let ghost fv = failure_view(*failure);
    let ghost ms = members_view(members@);
    let ghost goal = zip_from(es, fv, ms, 0, 0, Seq::empty());
    let n = entries.len();
    let mut taken: Vec<(String, Vec<u8>)> = Vec::new();
    assert(listing_view(taken@) =~= Seq::<(Seq<char>, Seq<u8>)>::empty());
    let mut step = zip_begin(members.len(), n);
    loop
        invariant
            n == entries@.len(),
            es == listing_view(entries@),
            fv == failure_view(*failure),
            ms == members_view(members@),
            goal == zip_from(es, fv, ms, 0, 0, Seq::empty()),
            step matches ZipStep::Read { member, entry } ==> member < members@.len() && entry < n,
            zip_outcome(step, es, fv, ms, listing_view(taken@)) == goal,
        decreases zip_members_left(step, members@.len()), zip_entries_left(step, n as nat),
    {
        match step {
            ZipStep::Read { member, entry } => {
                let ghost taken0 = listing_view(taken@);
                assert(es[entry as int] == (entries@[entry as int].0@, entries@[entry as int].1@));
                assert(ms[member as int] == members@[member as int]@);
                let matched = archive_entry_matches(entries[entry].0.as_str(), members[member].suffix.as_str());
                if matched {
                    let file = take_file(&members[member], &entries[entry]);
                    taken.push(file);
                    assert(listing_view(taken@) =~= taken0.push(
                        (ms[member as int].destination_name, es[entry as int].1),
                    ));
                }
                assert(matched == entry_matches(es[entry as int].0, ms[member as int].suffix));
                assert(matched ==> zip_from(es, fv, ms, member as int, entry as int, taken0) == zip_from(
                    es,
                    fv,
                    ms,
                    member + 1,
                    0,
                    listing_view(taken@),
                ));
                assert(!matched ==> zip_from(es, fv, ms, member as int, entry as int, taken0) == zip_from(
                    es,
                    fv,
                    ms,
                    member as int,
                    entry + 1,
                    listing_view(taken@),
                ));
                step = zip_after_entry(members.len(), n, member, entry, matched);
            },
            ZipStep::Missing(m) => {
                return match failure {
                    Some(d) => Err(ExtractFailure::Io(d.clone())),
                    None => Err(ExtractFailure::MemberMissing(m)),
                };
            },
            ZipStep::Done => {
                return Ok(taken);
            },
        }
    }
}

/// Takes `members` out of the tar.xz archive with the bytes `archive` (see
/// `tar_extraction`).
pub fn extract_tar_xz_bytes(archive: &[u8], members: &Vec<ArchiveMember>) -> (r: Result<
    Vec<(String, Vec<u8>)>,
    ExtractFailure,
>)
    ensures
        extraction_view(r) == tar_extraction(tar_xz_entries(archive@), members_view(members@)),
{
    let (entries, failure) = read_tar_xz(archive);
    take_tar_members(&entries, &failure, members)
}

/// Takes `members` out of the zip archive with the bytes `archive` (see
/// `zip_extraction`).
pub fn extract_zip_bytes(archive: &[u8], members: &Vec<ArchiveMember>) -> (r: Result<
    Vec<(String, Vec<u8>)>,
    ExtractFailure,
>)
    ensures
        extraction_view(r) == zip_extraction(zip_entries(archive@), members_view(members@)),
{
    match read_zip(archive) {
        Err(d) => Err(ExtractFailure::Io(d)),
        Ok((entries, failure)) => take_zip_members(&entries, &failure, members),
    }
}

/// What an archive of `kind` with the bytes `archive` gives for `members`.
pub open spec fn archive_extraction(kind: ArchiveKind, archive: Seq<u8>, members: Seq<MemberModel>) -> Result<
    Seq<(Seq<char>, Seq<u8>)>,
    ExtractFailureModel,
> {
    match kind {
        ArchiveKind::Zip => zip_extraction(zip_entries(archive), members),
        ArchiveKind::TarXz => tar_extraction(tar_xz_entries(archive), members),
    }
}

/// Takes `members` out of an archive of `kind` with the bytes `archive`:
/// the saved name and contents of each member, or why that failed.
pub fn extract_archive_bytes(kind: ArchiveKind, archive: &[u8], members: &Vec<ArchiveMember>) -> (r: Result<
    Vec<(String, Vec<u8>)>,
    ExtractFailure,
>)
    ensures
        extraction_view(r) == archive_extraction(kind, archive@, members_view(members@)),
{
    match kind {
        ArchiveKind::Zip => extract_zip_bytes(archive, members),
        ArchiveKind::TarXz => extract_tar_xz_bytes(archive, members),
    }
}

// ---------------------------------------------------------------------------
// Laws of the search
// ---------------------------------------------------------------------------

/// The first entry from `from` on whose name matches `suffix`.
pub open spec fn first_entry_match(entries: Seq<(Seq<char>, Seq<u8>)>, suffix: Seq<char>, from: int) -> Option<int>
    decreases entries.len() - from,
{
    if from < 0 || from >= entries.len() {
        None
    } else if entry_matches(entries[from].0, suffix) {
        Some(from)
    } else {
        first_entry_match(entries, suffix, from + 1)
    }
}

/// The first member from `from` on that no entry matches.
pub open spec fn first_unmatched(entries: Seq<(Seq<char>, Seq<u8>)>, members: Seq<MemberModel>, from: int) -> Option<int>
    decreases members.len() - from,
{
    if from < 0 || from >= members.len() {
        None
    } else if first_entry_match(entries, members[from].suffix, 0) is None {
        Some(from)
    } else {
        first_unmatched(entries, members, from + 1)
    }
}

/// The file of member `i`: its saved name and the contents of the first
/// entry that matches it.
pub open spec fn member_file(entries: Seq<(Seq<char>, Seq<u8>)>, members: Seq<MemberModel>, i: int) -> (
    Seq<char>,
    Seq<u8>,
) {
    (members[i].destination_name, entries[first_entry_match(entries, members[i].suffix, 0)->0].1)
}

/// The search for member `m` from entry `e` goes to the first matching
/// entry, or to the end of the listing.
proof fn lemma_zip_skip(
    entries: Seq<(Seq<char>, Seq<u8>)>,
    failure: Option<Seq<char>>,
    members: Seq<MemberModel>,
    m: int,
    e: int,
    taken: Seq<(Seq<char>, Seq<u8>)>,
)
    requires
        0 <= m < members.len(),
        0 <= e,
    ensures
        zip_from(entries, failure, members, m, e, taken) == match first_entry_match(
            entries,
            members[m].suffix,
            e,
        ) {
            None => match failure {
                Some(d) => Err(ExtractFailureModel::Io(d)),
                None => Err(ExtractFailureModel::MemberMissing(m)),
            },
            Some(j) => zip_from(
                entries,
                failure,
                members,
                m + 1,
                0,
                taken.push((members[m].destination_name, entries[j].1)),
            ),
        },
    decreases entries.len() - e,
{
    if e < entries.len() && !entry_matches(entries[e].0, members[m].suffix) {
        lemma_zip_skip(entries, failure, members, m, e + 1, taken);
    }
}

/// The search from member `m` on, with the files `taken` before it.
proof fn lemma_zip_members(
    entries: Seq<(Seq<char>, Seq<u8>)>,
    failure: Option<Seq<char>>,
    members: Seq<MemberModel>,
    m: int,
    taken: Seq<(Seq<char>, Seq<u8>)>,
)
    requires
        0 <= m <= members.len(),
    ensures
        zip_from(entries, failure, members, m, 0, taken) == match first_unmatched(entries, members, m) {
            None => Ok(taken + Seq::new((members.len() - m) as nat, |i: int| member_file(entries, members, m + i))),
            Some(i) => match failure {
                Some(d) => Err(ExtractFailureModel::Io(d)),
                None => Err(ExtractFailureModel::MemberMissing(i)),
            },
        },
    decreases members.len() - m,
{
    if m == members.len() {
        assert(taken + Seq::new(0, |i: int| member_file(entries, members, m + i)) =~= taken);
    } else {
        lemma_zip_skip(entries, failure, members, m, 0, taken);
        match first_entry_match(entries, members[m].suffix, 0) {
            None => {},
            Some(j) => {
                let next = taken.push((members[m].destination_name, entries[j].1));
                lemma_zip_members(entries, failure, members, m + 1, next);
                assert(member_file(entries, members, m) == (members[m].destination_name, entries[j].1));
                assert(next + Seq::new((members.len() - (m + 1)) as nat, |i: int| member_file(entries, members, m + 1 + i))
                    =~= taken + Seq::new((members.len() - m) as nat, |i: int| member_file(entries, members, m + i)));
            },
        }
    }
}

/// What a zip archive gives, in closed form: when every member matches some
/// entry, the file of each member in member order, taken from the first
/// entry that matches it; otherwise the listing's read failure, or the first
/// member that no entry matches.
pub proof fn lemma_zip_extraction(
    entries: Seq<(Seq<char>, Seq<u8>)>,
    failure: Option<Seq<char>>,
    members: Seq<MemberModel>,
)
    ensures
        zip_from(entries, failure, members, 0, 0, Seq::empty()) == match first_unmatched(entries, members, 0) {
            None => Ok(Seq::new(members.len(), |i: int| member_file(entries, members, i))),
            Some(i) => match failure {
                Some(d) => Err(ExtractFailureModel::Io(d)),
                None => Err(ExtractFailureModel::MemberMissing(i)),
            },
        },
{
    lemma_zip_members(entries, failure, members, 0, Seq::empty());
    assert(Seq::<(Seq<char>, Seq<u8>)>::empty() + Seq::new((members.len() - 0) as nat, |i: int| member_file(entries, members, 0 + i))
        =~= Seq::new(members.len(), |i: int| member_file(entries, members, i)));
}

/// Whether no entry's name matches two members.
pub open spec fn matches_at_most_one(entries: Seq<(Seq<char>, Seq<u8>)>, members: Seq<MemberModel>) -> bool {
    forall|j: int, a: int, b: int|
        0 <= j < entries.len() && 0 <= a < members.len() && 0 <= b < members.len() && #[trigger] entry_matches(
            entries[j].0,
            members[a].suffix,
        ) && #[trigger] entry_matches(entries[j].0, members[b].suffix) ==> a == b
}

/// The first member from `from` on whose first matching entry is entry `j`.
pub open spec fn member_first_at(entries: Seq<(Seq<char>, Seq<u8>)>, members: Seq<MemberModel>, j: int, from: int) -> Option<int>
    decreases members.len() - from,
{
    if from < 0 || from >= members.len() {
        None
    } else if first_entry_match(entries, members[from].suffix, 0) == Some(j) {
        Some(from)
    } else {
        member_first_at(entries, members, j, from + 1)
    }
}

/// The files of the first `k` entries, in archive order: an entry that is
/// the first match of a member gives that member's file.
pub open spec fn tar_files(entries: Seq<(Seq<char>, Seq<u8>)>, members: Seq<MemberModel>, k: int) -> Seq<(Seq<char>, Seq<u8>)>
    decreases k,
{
    if k <= 0 {
        Seq::empty()
    } else {
        let before = tar_files(entries, members, k - 1);
        match member_first_at(entries, members, k - 1, 0) {
            Some(i) => before.push((members[i].destination_name, entries[k - 1].1)),
            None => before,
        }
    }
}

/// Whether the first entry that matches member `i` comes before entry `k`.
pub open spec fn matched_before(entries: Seq<(Seq<char>, Seq<u8>)>, members: Seq<MemberModel>, i: int, k: int) -> bool {
    match first_entry_match(entries, members[i].suffix, 0) {
        Some(j) => j < k,
        None => false,
    }
}

proof fn lemma_first_entry_match(entries: Seq<(Seq<char>, Seq<u8>)>, suffix: Seq<char>, from: int)
    requires
        0 <= from,
    ensures
        first_entry_match(entries, suffix, from) matches Some(j) ==> {
            &&& from <= j < entries.len()
            &&& entry_matches(entries[j].0, suffix)
            &&& forall|x: int| from <= x < j ==> !entry_matches(#[trigger] entries[x].0, suffix)
        },
        first_entry_match(entries, suffix, from) is None ==> forall|x: int|
            from <= x < entries.len() ==> !entry_matches(#[trigger] entries[x].0, suffix),
    decreases entries.len() - from,
{
    if from < entries.len() && !entry_matches(entries[from].0, suffix) {
        lemma_first_entry_match(entries, suffix, from + 1);
    }
}

proof fn lemma_member_first_at(entries: Seq<(Seq<char>, Seq<u8>)>, members: Seq<MemberModel>, j: int, from: int)
    requires
        0 <= from,
    ensures
        member_first_at(entries, members, j, from) matches Some(i) ==> from <= i < members.len()
            && first_entry_match(entries, members[i].suffix, 0) == Some(j),
        member_first_at(entries, members, j, from) is None ==> forall|i: int|
            from <= i < members.len() ==> first_entry_match(entries, #[trigger] members[i].suffix, 0) != Some(j),
    decreases members.len() - from,
{
    if from < members.len() && first_entry_match(entries, members[from].suffix, 0) != Some(j) {
        lemma_member_first_at(entries, members, j, from + 1);
    }
}

proof fn lemma_tar_files_stable(entries: Seq<(Seq<char>, Seq<u8>)>, members: Seq<MemberModel>, k1: int, k2: int)
    requires
        0 <= k1 <= k2,
        forall|j: int| k1 <= j < k2 ==> member_first_at(entries, members, j, 0) is None,
    ensures
        tar_files(entries, members, k2) == tar_files(entries, members, k1),
    decreases k2 - k1,
{
    if k1 < k2 {
        lemma_tar_files_stable(entries, members, k1, k2 - 1);
        assert(member_first_at(entries, members, k2 - 1, 0) is None);
    }
}

proof fn lemma_missing_is_unmatched(
    entries: Seq<(Seq<char>, Seq<u8>)>,
    members: Seq<MemberModel>,
    found: Seq<bool>,
    from: int,
)
    requires
        0 <= from,
        found.len() == members.len(),
        forall|i: int| 0 <= i < members.len() ==> (#[trigger] found[i] <==> first_entry_match(entries, members[i].suffix, 0) is Some),
    ensures
        first_missing(found, from) == first_unmatched(entries, members, from),
    decreases members.len() - from,
{
    if from < members.len() {
        lemma_missing_is_unmatched(entries, members, found, from + 1);
    }
}

/// What a tar listing gives when every entry's name matches at most one
/// member, as `lemma_tar_extraction` states it.
pub open spec fn tar_expected(
    entries: Seq<(Seq<char>, Seq<u8>)>,
    failure: Option<Seq<char>>,
    members: Seq<MemberModel>,
) -> Result<Seq<(Seq<char>, Seq<u8>)>, ExtractFailureModel> {
    match first_unmatched(entries, members, 0) {
        None => Ok(tar_files(entries, members, entries.len() as int)),
        Some(i) => match failure {
            Some(d) => Err(ExtractFailureModel::Io(d)),
            None => Err(ExtractFailureModel::MemberMissing(i)),
        },
    }
}

/// The tar search from entry `k` on gives what `tar_expected` says, while
/// the members found are those whose first match comes before entry `k` and
/// the files taken are those of the first `k` entries.
proof fn lemma_tar_scan(
    entries: Seq<(Seq<char>, Seq<u8>)>,
    failure: Option<Seq<char>>,
    members: Seq<MemberModel>,
    found: Seq<bool>,
    taken: Seq<(Seq<char>, Seq<u8>)>,
    k: int,
)
    requires
        matches_at_most_one(entries, members),
        !(members.len() == 0 && entries.len() == 0 && failure is Some),
        0 <= k <= entries.len(),
        found.len() == members.len(),
        forall|i: int| 0 <= i < members.len() ==> (#[trigger] found[i] <==> matched_before(entries, members, i, k)),
        taken == tar_files(entries, members, k),
        k > 0 ==> first_missing(found, 0) is Some,
    ensures
        tar_scan(entries, failure, members, found, taken, k) == tar_expected(entries, failure, members),
    decreases entries.len() - k,
{
    if k >= entries.len() {
        assert forall|i: int| 0 <= i < members.len() implies (#[trigger] found[i]
            <==> first_entry_match(entries, members[i].suffix, 0) is Some) by {
            lemma_first_entry_match(entries, members[i].suffix, 0);
        }
        lemma_missing_is_unmatched(entries, members, found, 0);
    } else {
        let suffixes = member_suffixes(members);
        let name = entries[k].0;
        lemma_tar_member_index(found, suffixes, name, 0);
        let found2 = tar_found_after(members, found, name);
        let taken2 = tar_taken_after(members, found, entries[k], taken);
        assert forall|i: int| 0 <= i < members.len() implies (#[trigger] found2[i]
            <==> matched_before(entries, members, i, k + 1)) by {
            lemma_first_entry_match(entries, members[i].suffix, 0);
            assert(suffixes[i] == members[i].suffix);
            if entry_matches(name, members[i].suffix) {
                assert(first_entry_match(entries, members[i].suffix, 0) is Some);
            }
        }
        lemma_member_first_at(entries, members, k, 0);
        match tar_member_index(found, suffixes, name, 0) {
            Some(i) => {
                lemma_first_entry_match(entries, members[i].suffix, 0);
                assert(first_entry_match(entries, members[i].suffix, 0) == Some(k));
                if let Some(i2) = member_first_at(entries, members, k, 0) {
                    lemma_first_entry_match(entries, members[i2].suffix, 0);
                    assert(entry_matches(entries[k].0, members[i2].suffix));
                    assert(i2 == i);
                }
                assert(taken2 == tar_files(entries, members, k + 1));
            },
            None => {
                if let Some(i2) = member_first_at(entries, members, k, 0) {
                    lemma_first_entry_match(entries, members[i2].suffix, 0);
                    assert(suffixes[i2] == members[i2].suffix);
                    assert(!found[i2]);
                    assert(false);
                }
                assert(taken2 == tar_files(entries, members, k + 1));
            },
        }
        lemma_first_missing(found2, 0);
        if first_missing(found2, 0) is None {
            assert forall|i: int| 0 <= i < members.len() implies #[trigger] first_entry_match(
                entries,
                members[i].suffix,
                0,
            ) is Some by {
                assert(found2[i]);
            }
            assert forall|j: int| k + 1 <= j < entries.len() implies member_first_at(entries, members, j, 0) is None by {
                lemma_member_first_at(entries, members, j, 0);
                if let Some(i2) = member_first_at(entries, members, j, 0) {
                    assert(found2[i2]);
                }
            }
            lemma_tar_files_stable(entries, members, k + 1, entries.len() as int);
            assert forall|i: int| 0 <= i < members.len() implies (#[trigger] found2[i]
                <==> first_entry_match(entries, members[i].suffix, 0) is Some) by {
                assert(found2[i]);
            }
            lemma_missing_is_unmatched(entries, members, found2, 0);
        } else {
            lemma_tar_scan(entries, failure, members, found2, taken2, k + 1);
        }
    }
}

/// What a tar.xz archive gives when no entry's name matches two members (the
/// one input left out is an empty listing with no members that ends in a
/// read failure, which reports that failure): when every member matches some
/// entry, one file per member in archive order, each taken from the first
/// entry that matches it; otherwise the listing's read failure, or the first
/// member that no entry matches.
pub proof fn lemma_tar_extraction(
    entries: Seq<(Seq<char>, Seq<u8>)>,
    failure: Option<Seq<char>>,
    members: Seq<MemberModel>,
)
    requires
        matches_at_most_one(entries, members),
        !(members.len() == 0 && entries.len() == 0 && failure is Some),
    ensures
        tar_extraction((entries, failure), members) == tar_expected(entries, failure, members),
{
    let found = Seq::new(members.len(), |i: int| false);
    assert forall|i: int| 0 <= i < members.len() implies (#[trigger] found[i] <==> matched_before(
        entries,
        members,
        i,
        0,
    )) by {
        lemma_first_entry_match(entries, members[i].suffix, 0);
    }
    lemma_tar_scan(entries, failure, members, found, Seq::empty(), 0);
}

} // verus!
