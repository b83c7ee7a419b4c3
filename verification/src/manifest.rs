//! Extension descriptors.
//!
//! An extension declares itself in a descriptor file: a flat table of
//! string-valued keys, of which `name` and `version` are required and
//! every further pair is kept as a capability declaration.  Parsing
//! either fully succeeds or fails with one of exactly two kinds:
//! the path did not resolve to a readable file (`NotFound`), or the
//! content violates the descriptor grammar (`CannotParse`).

use vstd::prelude::*;

verus! {

/// The two ways a descriptor fails to parse.
#[derive(Clone, Copy, PartialEq, Eq, Structural, Debug)]
pub enum ManifestErrors {
    /// The path does not resolve to a readable file.
    NotFound,
    /// The file exists but its content violates the descriptor grammar.
    CannotParse,
}

/// The key/value pairs that a well-formed descriptor text denotes, or
/// `None` where the text violates the grammar.  The grammar itself is a
/// collaborator's (a structured declaration format); only its outcome is
/// named here.
pub uninterp spec fn descriptor_pairs_of(text: Seq<char>) -> Option<
    Seq<(Seq<char>, Seq<char>)>,
>;

/// The view of a pair list.
pub open spec fn pairs_view(pairs: Seq<(String, String)>) -> Seq<(Seq<char>, Seq<char>)> {
    pairs.map_values(|p: (String, String)| (p.0@, p.1@))
}

/// Relies on `toml::from_str`: deserializes the text as a flat table of
/// string values; the outcome depends on the characters alone.
#[verifier::external_body]
fn parse_descriptor(content: &str) -> (r: Option<Vec<(String, String)>>)
    ensures
        r matches Some(v) ==> descriptor_pairs_of(content@) == Some(pairs_view(v@)),
        r is None ==> descriptor_pairs_of(content@) is None,
{
    match toml::from_str::<std::collections::BTreeMap<String, String>>(content) {
        Ok(table) => Some(table.into_iter().collect()),
        Err(_) => None,
    }
}

/// The value under the first occurrence of `key`, if any.
pub open spec fn lookup_entry(pairs: Seq<(Seq<char>, Seq<char>)>, key: Seq<char>) -> Option<
    Seq<char>,
>
    decreases pairs.len(),
{
    if pairs.len() == 0 {
        None
    } else if pairs[0].0 == key {
        Some(pairs[0].1)
    } else {
        lookup_entry(pairs.skip(1), key)
    }
}

proof fn lemma_lookup_after_mismatch(pairs: Seq<(Seq<char>, Seq<char>)>, key: Seq<char>, i: int)
    requires
        0 <= i <= pairs.len(),
        forall|j: int| 0 <= j < i ==> pairs[j].0 != key,
    ensures
        lookup_entry(pairs, key) == lookup_entry(pairs.skip(i), key),
    decreases i,
{
    if i > 0 {
        lemma_lookup_after_mismatch(pairs.skip(1), key, i - 1);
        assert(pairs.skip(1).skip(i - 1) =~= pairs.skip(i));
    } else {
        assert(pairs.skip(0) =~= pairs);
    }
}

/// A copy of the value under the first occurrence of `key`.
fn find_entry(pairs: &Vec<(String, String)>, key: &String) -> (r: Option<String>)
    ensures
        r matches Some(v) ==> lookup_entry(pairs_view(pairs@), key@) == Some(v@),
        r is None ==> lookup_entry(pairs_view(pairs@), key@) is None,
{
    let mut i: usize = 0;
    while i < pairs.len()
        invariant
            i <= pairs@.len(),
            forall|j: int| 0 <= j < i ==> pairs_view(pairs@)[j].0 != key@,
        decreases pairs@.len() - i,
    {
        if pairs[i].0 == *key {
            proof {
                lemma_lookup_after_mismatch(pairs_view(pairs@), key@, i as int);
            }
            return Some(pairs[i].1.clone());
        }
        i = i + 1;
    }
    proof {
        lemma_lookup_after_mismatch(pairs_view(pairs@), key@, i as int);
    }
    None
}

/// A parsed extension descriptor: the required `name` and `version`, and
/// every pair of the table as declared.
#[derive(PartialEq, Debug)]
pub struct Manifest {
    pub name: String,
    pub version: String,
    pub entries: Vec<(String, String)>,
}

/// Mathematical image of a `Manifest`.
pub struct ManifestView {
    pub name: Seq<char>,
    pub version: Seq<char>,
    pub entries: Seq<(Seq<char>, Seq<char>)>,
}

impl View for Manifest {
    type V = ManifestView;

    open spec fn view(&self) -> ManifestView {
        ManifestView { name: self.name@, version: self.version@, entries: pairs_view(self.entries@) }
    }
}

/// What a descriptor text denotes: its pairs with `name` and `version`
/// present, or nothing where the grammar or the schema is violated.
pub open spec fn manifest_spec(text: Seq<char>) -> Option<ManifestView> {
    match descriptor_pairs_of(text) {
        None => None,
        Some(pairs) => match (lookup_entry(pairs, "name"@), lookup_entry(pairs, "version"@)) {
            (Some(n), Some(v)) => Some(ManifestView { name: n, version: v, entries: pairs }),
            _ => None,
        },
    }
}

/// A lightweight, cloneable summary of a `Manifest`, surfaced to callers
/// without the full descriptor.
#[derive(PartialEq, Debug)]
pub struct ManifestInfo {
    pub name: String,
    pub version: String,
}

/// Mathematical image of a `ManifestInfo`.
pub struct ManifestInfoView {
    pub name: Seq<char>,
    pub version: Seq<char>,
}

impl View for ManifestInfo {
    type V = ManifestInfoView;

    open spec fn view(&self) -> ManifestInfoView {
        ManifestInfoView { name: self.name@, version: self.version@ }
    }
}

impl Clone for ManifestInfo {
    fn clone(&self) -> (res: Self)
        ensures
            res@ == self@,
    {
        ManifestInfo { name: self.name.clone(), version: self.version.clone() }
    }
}

impl Default for ManifestInfo {
    /// The empty summary, used for synthetic or built-in extensions.
    fn default() -> (d: Self)
        ensures
            d@.name == Seq::<char>::empty(),
            d@.version == Seq::<char>::empty(),
    {
        ManifestInfo { name: String::new(), version: String::new() }
    }
}

impl Manifest {
    /// Parses a descriptor text.  Succeeds exactly on the texts that the
    /// grammar accepts and that declare both `name` and `version`; every
    /// other text is rejected with `CannotParse`.
    pub fn parse_text(content: &str) -> (r: Result<Manifest, ManifestErrors>)
        ensures
            manifest_spec(content@) matches Some(mv) ==> r matches Ok(m) && m@ == mv,
            manifest_spec(content@) is None ==> r == Err::<Manifest, _>(
                ManifestErrors::CannotParse,
            ),
    {
        let pairs = match parse_descriptor(content) {
            Some(pairs) => pairs,
            None => {
                return Err(ManifestErrors::CannotParse);
            },
        };
        let name_key = String::from_str("name");
        let version_key = String::from_str("version");
        let name = match find_entry(&pairs, &name_key) {
            Some(n) => n,
            None => {
                return Err(ManifestErrors::CannotParse);
            },
        };
        let version = match find_entry(&pairs, &version_key) {
            Some(v) => v,
            None => {
                return Err(ManifestErrors::CannotParse);
            },
        };
        Ok(Manifest { name, version, entries: pairs })
    }

    /// Parses the outcome of resolving and reading a descriptor path.
    /// The read itself is the host's: `None` stands for a path that did
    /// not resolve to a readable file.
    pub fn parse(read: Option<&str>) -> (r: Result<Manifest, ManifestErrors>)
        ensures
            read is None ==> r == Err::<Manifest, _>(ManifestErrors::NotFound),
            read matches Some(content) ==> {
                &&& manifest_spec(content@) matches Some(mv) ==> r matches Ok(m) && m@ == mv
                &&& manifest_spec(content@) is None ==> r == Err::<Manifest, _>(
                    ManifestErrors::CannotParse,
                )
            },
    {
        match read {
            None => Err(ManifestErrors::NotFound),
            Some(content) => Manifest::parse_text(content),
        }
    }

    /// The summary surfaced to callers.
    pub fn info(&self) -> (r: ManifestInfo)
        ensures
            r@.name == self@.name,
            r@.version == self@.version,
    {
        ManifestInfo { name: self.name.clone(), version: self.version.clone() }
    }
}

} // verus!
