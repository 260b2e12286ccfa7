//! The archive session: an exclusively owned set of named text members,
//! validated once at open time against the required-table rule.
use vstd::prelude::*;

verus! {

use vstd::string::StrSliceExecFns;
use crate::text::str_eq_value;

/// One named text member of the archive.
#[derive(Debug, Clone)]
pub struct ArchiveMember {
    pub name: String,
    pub text: String,
}

/// The archive does not satisfy the required-table rule.
#[derive(Debug, Clone, Copy, PartialEq, Eq, Structural)]
pub struct GtfsSpecError;

impl GtfsSpecError {
    /// A human-readable account of the failure.
    pub fn message(&self) -> (r: String)
        ensures
            r@ == "The files provided do not match GTFS specifications"@,
    {
        let r = String::from_str("The files provided do not match GTFS specifications");
        r
    }
}

/// A structured failure of decoding or of a joined query.
#[derive(Debug, Clone, Copy, PartialEq, Eq, Structural)]
pub enum GtfsError {
    /// A row of a table failed to decode; the whole table read fails.
    Decode,
    /// The requested member is not in the archive. For an optional table
    /// the caller treats this as "no records of this type".
    MissingFile,
    /// A joined query met a reference with no matching record.
    Referential,
}

/// The names of the members, in archive order.
pub open spec fn names_of(ms: Seq<ArchiveMember>) -> Seq<Seq<char>> {
    Seq::new(ms.len(), |i: int| ms[i].name@)
}

/// The text of the first member with the given name.
pub open spec fn lookup_text(ms: Seq<ArchiveMember>, name: Seq<char>) -> Option<Seq<char>>
    decreases ms.len(),
{
    if ms.len() == 0 {
        None
    } else if ms[0].name@ == name {
        Some(ms[0].text@)
    } else {
        lookup_text(ms.drop_first(), name)
    }
}

/// The required-table rule: an archive is usable only if every table the
/// model treats as mandatory is present. Both calendar tables are demanded,
/// deliberately preserving the model's historical rule.
pub open spec fn required_ok(names: Seq<Seq<char>>) -> bool {
    &&& names.contains("agency.txt"@)
    &&& names.contains("stops.txt"@)
    &&& names.contains("routes.txt"@)
    &&& names.contains("trips.txt"@)
    &&& names.contains("stop_times.txt"@)
    &&& names.contains("calendar.txt"@)
    &&& names.contains("calendar_dates.txt"@)
}

/// A valid archive lists at least one member.
pub proof fn lemma_valid_archive_nonempty(names: Seq<Seq<char>>)
    requires
        required_ok(names),
    ensures
        names.len() > 0,
{
    let i = choose|i: int| 0 <= i < names.len() && names[i] == "agency.txt"@;
    assert(0 <= i < names.len());
}

fn contains_name(members: &Vec<ArchiveMember>, name: &str) -> (r: bool)
    ensures
        r == names_of(members@).contains(name@),
{
    let mut i: usize = 0;
    while i < members.len()
        invariant
            i <= members.len(),
            forall|j: int| 0 <= j < i ==> members@[j].name@ != name@,
        decreases members.len() - i,
    {
        if str_eq_value(members[i].name.as_str(), name) {
            proof {
                assert(names_of(members@)[i as int] == name@);
            }
            return true;
        }
        i = i + 1;
    }
    proof {
        if names_of(members@).contains(name@) {
            let j = choose|j: int|
                0 <= j < names_of(members@).len() && names_of(members@)[j] == name@;
            assert(members@[j].name@ == name@);
        }
    }
    false
}

/// An open archive session, owned exclusively by its user; every decode
/// re-reads the member it needs from this session's members.
pub struct GtfsFile {
    members: Vec<ArchiveMember>,
}

impl GtfsFile {
    /// The members held by this session.
    pub closed spec fn members_view(self) -> Seq<ArchiveMember> {
        self.members@
    }

    /// The member names, in archive order.
    pub open spec fn names(self) -> Seq<Seq<char>> {
        names_of(self.members_view())
    }

    /// The text of the first member with the given name.
    pub open spec fn text_of(self, name: Seq<char>) -> Option<Seq<char>> {
        lookup_text(self.members_view(), name)
    }

    /// The session satisfies the required-table rule.
    pub open spec fn wf(self) -> bool {
        required_ok(self.names())
    }

    /// Open an archive session over the given members. Fails, before any
    /// table content is read, if and only if some required member is
    /// missing; this is a membership check on names alone.
    pub fn new(members: Vec<ArchiveMember>) -> (r: Result<GtfsFile, GtfsSpecError>)
        ensures
            r is Ok <==> required_ok(names_of(members@)),
            r matches Ok(f) ==> f.members_view() == members@,
    {
        if !contains_name(&members, "agency.txt") {
            return Err(GtfsSpecError);
        }
        if !contains_name(&members, "stops.txt") {
            return Err(GtfsSpecError);
        }
        if !contains_name(&members, "routes.txt") {
            return Err(GtfsSpecError);
        }
        if !contains_name(&members, "trips.txt") {
            return Err(GtfsSpecError);
        }
        if !contains_name(&members, "stop_times.txt") {
            return Err(GtfsSpecError);
        }
        if !contains_name(&members, "calendar.txt") || !contains_name(&members, "calendar_dates.txt")
        {
            return Err(GtfsSpecError);
        }
        Ok(GtfsFile { members })
    }

    /// The member names, in archive order.
    pub fn list_files(&self) -> (r: Vec<String>)
        ensures
            r.deep_view() == self.names(),
    {
        let mut r: Vec<String> = Vec::new();
        let mut i: usize = 0;
        while i < self.members.len()
            invariant
                i <= self.members.len(),
                self.members@ == self.members_view(),
                r.deep_view().len() == i,
                forall|j: int| 0 <= j < i ==> r.deep_view()[j] == self.names()[j],
            decreases self.members.len() - i,
        {
            let ghost pre = r.deep_view();
            let name = self.members[i].name.clone();
            r.push(name);
            proof {
                assert(r.deep_view() =~= pre.push(name@));
            }
            i = i + 1;
        }
        proof {
            assert(r.deep_view() =~= self.names());
        }
        r
    }

    /// The text of the first member with the given name, if any.
    pub fn member_text(&self, name: &str) -> (r: Option<&String>)
        ensures
            r is Some <==> self.text_of(name@) is Some,
            r matches Some(t) ==> Some(t@) == self.text_of(name@),
    {
        let ghost ms = self.members_view();
        let mut i: usize = 0;
        proof {
            assert(ms.skip(0) =~= ms);
        }
        while i < self.members.len()
            invariant
                i <= self.members.len(),
                ms == self.members_view(),
                self.members@ == ms,
                lookup_text(ms, name@) == lookup_text(ms.skip(i as int), name@),
            decreases self.members.len() - i,
        {
            proof {
                assert(ms.skip(i as int)[0] == ms[i as int]);
                assert(ms.skip(i as int).drop_first() =~= ms.skip(i + 1));
            }
            if str_eq_value(self.members[i].name.as_str(), name) {
                return Some(&self.members[i].text);
            }
            i = i + 1;
        }
        proof {
            assert(ms.skip(i as int) =~= Seq::<ArchiveMember>::empty());
        }
        None
    }

    /// The text of the named member; the caller owes its presence.
    pub fn extract_by_name(&self, name: &str) -> (r: String)
        requires
            self.text_of(name@) is Some,
        ensures
            Some(r@) == self.text_of(name@),
    {
        match self.member_text(name) {
            Some(t) => t.clone(),
            None => {
                proof {
                    assert(false);
                }
                String::new()
            },
        }
    }
}

/// Open an archive session over the given members; the caller owes an
/// archive that satisfies the required-table rule.
pub fn load_gtfs_file(members: Vec<ArchiveMember>) -> (r: GtfsFile)
    requires
        required_ok(names_of(members@)),
    ensures
        r.members_view() == members@,
        r.wf(),
{
    let ghost ms = members@;
    match GtfsFile::new(members) {
        Ok(f) => f,
        Err(_) => {
            proof {
                assert(false);
            }
            GtfsFile { members: Vec::new() }
        },
    }
}

} // verus!
