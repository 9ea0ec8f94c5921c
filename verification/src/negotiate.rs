//! Content negotiation: which variant of a repodata document to download.

use crate::error::FetchError;
use reqwest::Url;
use vstd::prelude::*;

verus! {

/// A compressed transfer encoding of a repodata document.
#[derive(Clone, Copy, Debug, PartialEq, Eq, Structural)]
pub enum Encoding {
    /// Zstandard, served as `repodata.json.zst`.
    Zst,
    /// Bzip2, served as `repodata.json.bz2`.
    Bz2,
}

/// Which compressed variants a server offers next to the plain document.
#[derive(Clone, Copy, Debug, PartialEq, Eq, Structural)]
pub struct VariantAvailability {
    pub has_zst: bool,
    pub has_bz2: bool,
}

/// The preferred variant: zstd before bzip2 before the plain document.
pub open spec fn preferred_variant(availability: VariantAvailability) -> Option<Encoding> {
    if availability.has_zst {
        Some(Encoding::Zst)
    } else if availability.has_bz2 {
        Some(Encoding::Bz2)
    } else {
        None
    }
}

/// Selects the variant to download; `None` stands for the plain document.
pub fn select_variant(availability: VariantAvailability) -> (choice: Option<Encoding>)
    ensures
        choice == preferred_variant(availability),
{
    if availability.has_zst {
        Some(Encoding::Zst)
    } else if availability.has_bz2 {
        Some(Encoding::Bz2)
    } else {
        None
    }
}

impl VariantAvailability {
    /// What two probes say about a server: a variant is available where its
    /// probe answered that it exists. A probe that failed (`None`) counts as
    /// a missing variant, so that negotiation always ends with a choice.
    pub fn from_probes(zst: Option<bool>, bz2: Option<bool>) -> (availability: Self)
        ensures
            availability.has_zst == (zst == Some(true)),
            availability.has_bz2 == (bz2 == Some(true)),
    {
        let has_zst = match zst {
            Some(exists) => exists,
            None => false,
        };
        let has_bz2 = match bz2 {
            Some(exists) => exists,
            None => false,
        };
        VariantAvailability { has_zst, has_bz2 }
    }
}

/// What a variant's file name adds to the name of the plain document.
pub open spec fn variant_suffix(choice: Option<Encoding>) -> Seq<char> {
    match choice {
        Some(Encoding::Zst) => ".zst"@,
        Some(Encoding::Bz2) => ".bz2"@,
        None => Seq::empty(),
    }
}

/// The file name of a variant: `repodata.json` and the variant's suffix.
pub open spec fn variant_file_name(choice: Option<Encoding>) -> Seq<char> {
    "repodata.json"@ + variant_suffix(choice)
}

/// The file name under which a server offers a variant.
pub fn file_name(choice: Option<Encoding>) -> (name: &'static str)
    ensures
        name@ == variant_file_name(choice),
{
    proof {
        reveal_strlit("repodata.json");
        reveal_strlit(".zst");
        reveal_strlit(".bz2");
        reveal_strlit("repodata.json.zst");
        reveal_strlit("repodata.json.bz2");
    }
    match choice {
        Some(Encoding::Zst) => {
            assert("repodata.json.zst"@ =~= "repodata.json"@ + ".zst"@);
            "repodata.json.zst"
        },
        Some(Encoding::Bz2) => {
            assert("repodata.json.bz2"@ =~= "repodata.json"@ + ".bz2"@);
            "repodata.json.bz2"
        },
        None => {
            assert("repodata.json"@ =~= "repodata.json"@ + Seq::<char>::empty());
            "repodata.json"
        },
    }
}

/// The URL that `reference` denotes relative to the URL `base`, or `None`
/// where `base` is no absolute URL or `reference` cannot be resolved
/// against it.
pub uninterp spec fn url_join(base: Seq<char>, reference: Seq<char>) -> Option<Seq<char>>;

/// Parses `base` with `Url::parse` and resolves `reference` against it with
/// `Url::join`, both of the url crate as reqwest exports it. Trusted: the
/// outcome is a function of the two strings alone, which the contract names
/// `url_join`; an error of either call is `None`.
#[verifier::external_body]
fn join_url(base: &str, reference: &str) -> (joined: Option<String>)
    ensures
        joined matches Some(url) ==> url_join(base@, reference@) == Some(url@),
        joined is None ==> url_join(base@, reference@) is None,
{
    match Url::parse(base) {
        Ok(base) => match base.join(reference) {
            Ok(url) => Some(String::from(url)),
            Err(_) => None,
        },
        Err(_) => None,
    }
}

/// Pairs the joined URL with the encoding that was chosen; where nothing was
/// joined, the platform URL was no base for a document URL.
pub fn repodata_target(joined: Option<String>, choice: Option<Encoding>) -> (res: Result<
    (String, Option<Encoding>),
    FetchError,
>)
    ensures
        res == match joined {
            Some(url) => Ok::<(String, Option<Encoding>), FetchError>((url, choice)),
            None => Err(FetchError::InvalidUrl),
        },
{
    match joined {
        Some(url) => Ok((url, choice)),
        None => Err(FetchError::InvalidUrl),
    }
}

/// The URL to download and the encoding to expect, for a platform URL and
/// the variants that its server offers: the preferred variant's file name,
/// resolved against the platform URL.
pub fn get_repodata_url(platform_url: &str, availability: VariantAvailability) -> (res: Result<
    (String, Option<Encoding>),
    FetchError,
>)
    ensures
        match url_join(platform_url@, variant_file_name(preferred_variant(availability))) {
            Some(url) => res matches Ok((target, encoding)) && target@ == url && encoding
                == preferred_variant(availability),
            None => res == Err::<(String, Option<Encoding>), FetchError>(FetchError::InvalidUrl),
        },
{
    let choice = select_variant(availability);
    let joined = join_url(platform_url, file_name(choice));
    repodata_target(joined, choice)
}

} // verus!
