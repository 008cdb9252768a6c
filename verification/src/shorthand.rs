//! Shorthand entries and the mapping they form.
//!
//! A mapping is an ordered sequence of `{short, long}` entries. The name
//! `list` is reserved: a mapping that contains it is rejected at load time.

use vstd::prelude::*;

verus! {

/// One entry of the mapping: `short` is the subdomain label, `long` the
/// destination URL it redirects to.
#[derive(Clone, Debug, PartialEq, Eq)]
pub struct Shorthand {
    pub short: String,
    pub long: String,
}

/// The mathematical value of a [`Shorthand`]: both fields as char sequences.
pub struct ShorthandModel {
    pub short: Seq<char>,
    pub long: Seq<char>,
}

impl View for Shorthand {
    type V = ShorthandModel;

    open spec fn view(&self) -> ShorthandModel {
        ShorthandModel { short: self.short@, long: self.long@ }
    }
}

/// The mathematical value of a whole mapping.
pub open spec fn entries_model(entries: Seq<Shorthand>) -> Seq<ShorthandModel> {
    entries.map_values(|e: Shorthand| e@)
}

/// Whether some entry uses the reserved name `list` as its `short`.
pub open spec fn has_reserved(entries: Seq<ShorthandModel>) -> bool {
    exists|i: int| 0 <= i < entries.len() && entries[i].short == "list"@
}

/// The destination of the first entry whose `short` equals `sub`, if any:
/// lookup scans in order and the first match wins.
pub open spec fn lookup_spec(entries: Seq<ShorthandModel>, sub: Seq<char>) -> Option<Seq<char>>
    decreases entries.len(),
{
    if entries.len() == 0 {
        None
    } else if entries[0].short == sub {
        Some(entries[0].long)
    } else {
        lookup_spec(entries.drop_first(), sub)
    }
}

/// The mathematical value of an optional string.
pub open spec fn str_option_model(o: Option<String>) -> Option<Seq<char>> {
    match o {
        Some(s) => Some(s@),
        None => None,
    }
}

/// Lookup succeeds exactly when some entry's `short` equals `sub`, and then
/// returns the destination of the first such entry.
pub proof fn lemma_lookup_first_match(entries: Seq<ShorthandModel>, sub: Seq<char>)
    ensures
        (exists|i: int| 0 <= i < entries.len() && entries[i].short == sub) <==> lookup_spec(
            entries,
            sub,
        ) is Some,
        lookup_spec(entries, sub) is Some ==> exists|i: int|
            {
                &&& 0 <= i < entries.len()
                &&& entries[i].short == sub
                &&& lookup_spec(entries, sub) == Some(entries[i].long)
                &&& forall|k: int| 0 <= k < i ==> entries[k].short != sub
            },
    decreases entries.len(),
{
    if entries.len() == 0 {
    } else if entries[0].short == sub {
        assert(0 <= 0 < entries.len() && entries[0].short == sub);
    } else {
        let rest = entries.drop_first();
        lemma_lookup_first_match(rest, sub);
        if exists|i: int| 0 <= i < entries.len() && entries[i].short == sub {
            let i = choose|i: int| 0 <= i < entries.len() && entries[i].short == sub;
            assert(i >= 1);
            assert(rest[i - 1] == entries[i]);
            assert(exists|j: int| 0 <= j < rest.len() && rest[j].short == sub);
        }
        if lookup_spec(entries, sub) is Some {
            let j = choose|j: int|
                {
                    &&& 0 <= j < rest.len()
                    &&& rest[j].short == sub
                    &&& lookup_spec(rest, sub) == Some(rest[j].long)
                    &&& forall|k: int| 0 <= k < j ==> rest[k].short != sub
                };
            assert(entries[j + 1] == rest[j]);
            assert(forall|k: int| 1 <= k < j + 1 ==> entries[k] == rest[k - 1]);
            assert(forall|k: int| 0 <= k < j + 1 ==> entries[k].short != sub);
            assert({
                &&& 0 <= j + 1 < entries.len()
                &&& entries[j + 1].short == sub
                &&& lookup_spec(entries, sub) == Some(entries[j + 1].long)
                &&& forall|k: int| 0 <= k < j + 1 ==> entries[k].short != sub
            });
        }
    }
}

/// Finds the first entry whose `short` equals `sub` and returns its
/// destination URL.
pub fn lookup(entries: &Vec<Shorthand>, sub: &String) -> (r: Option<String>)
    ensures
        str_option_model(r) == lookup_spec(entries_model(entries@), sub@),
{
    let ghost em = entries_model(entries@);
    proof {
        assert(em.skip(0) =~= em);
    }
    let mut i: usize = 0;
    while i < entries.len()
        invariant
            i <= entries.len(),
            em == entries_model(entries@),
            em.len() == entries@.len(),
            lookup_spec(em, sub@) == lookup_spec(em.skip(i as int), sub@),
        decreases entries.len() - i,
    {
        proof {
            assert(em.skip(i as int)[0] == em[i as int]);
            assert(em[i as int] == entries@[i as int]@);
        }
        if entries[i].short == *sub {
            return Some(entries[i].long.clone());
        }
        proof {
            assert(em.skip(i as int).drop_first() =~= em.skip(i as int + 1));
        }
        i = i + 1;
    }
    proof {
        assert(em.skip(entries@.len() as int) =~= Seq::<ShorthandModel>::empty());
    }
    None
}

/// Why a mapping could not be loaded.
#[derive(Clone, Debug, PartialEq, Eq)]
pub enum LoadError {
    /// The external source could not be read; holds the reader's message.
    Read(String),
    /// The source's content is not a well-formed sequence of `{short, long}`
    /// records; holds the parser's message.
    Parse(String),
    /// Some entry uses the reserved name `list`.
    ReservedName,
}

/// The mathematical value of a [`LoadError`].
pub enum LoadErrorModel {
    Read(Seq<char>),
    Parse(Seq<char>),
    ReservedName,
}

impl View for LoadError {
    type V = LoadErrorModel;

    open spec fn view(&self) -> LoadErrorModel {
        match self {
            LoadError::Read(m) => LoadErrorModel::Read(m@),
            LoadError::Parse(m) => LoadErrorModel::Parse(m@),
            LoadError::ReservedName => LoadErrorModel::ReservedName,
        }
    }
}

/// The reason a load failed, as text for a diagnostic message.
pub open spec fn load_error_reason(e: LoadErrorModel) -> Seq<char> {
    match e {
        LoadErrorModel::Read(m) => m,
        LoadErrorModel::Parse(m) => m,
        LoadErrorModel::ReservedName => "the shorthand 'list' is reserved"@,
    }
}

impl LoadError {
    /// The reason this load failed, as text for a diagnostic message.
    pub fn reason(&self) -> (r: String)
        ensures
            r@ == load_error_reason(self@),
    {
        match self {
            LoadError::Read(m) => m.clone(),
            LoadError::Parse(m) => m.clone(),
            LoadError::ReservedName => String::from_str("the shorthand 'list' is reserved"),
        }
    }
}

/// The mapping loader's semantic step: a parsed mapping is accepted as it
/// stands unless some entry uses the reserved name `list`.
pub fn validate_entries(entries: Vec<Shorthand>) -> (r: Result<Vec<Shorthand>, LoadError>)
    ensures
        match r {
            Ok(es) => es@ == entries@ && !has_reserved(entries_model(entries@)),
            Err(e) => e@ == LoadErrorModel::ReservedName && has_reserved(entries_model(entries@)),
        },
{
    let ghost em = entries_model(entries@);
    let reserved = String::from_str("list");
    let mut i: usize = 0;
    while i < entries.len()
        invariant
            i <= entries.len(),
            em == entries_model(entries@),
            em.len() == entries@.len(),
            reserved@ == "list"@,
            forall|k: int| 0 <= k < i ==> em[k].short != "list"@,
        decreases entries.len() - i,
    {
        proof {
            assert(em[i as int] == entries@[i as int]@);
        }
        if entries[i].short == reserved {
            assert(has_reserved(em));
            return Err(LoadError::ReservedName);
        }
        i = i + 1;
    }
    Ok(entries)
}

} // verus!
