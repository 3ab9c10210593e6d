//! Post metadata: the structured record read from a document's
//! frontmatter block, in YAML or TOML key/value form.
use vstd::prelude::*;

verus! {

use vstd::string::StrSliceExecFns;
use vstd::string::StringExecFns;
use crate::date::DateYmd;
use crate::date::spec_parse_date;
use crate::date::parse_date;
use crate::errors::str_eq;

/// The record read from a frontmatter block: exactly these four
/// fields, the date in `YYYY-MM-DD` form.
#[derive(Clone, Debug)]
pub struct PostMetadata {
    pub title: String,
    pub author: String,
    pub description: String,
    pub date: DateYmd,
}

/// What serde_yaml yields for a frontmatter text read as a mapping
/// from string keys to string values: the pairs in the map's sorted
/// key order, or the error text.
pub uninterp spec fn yaml_pairs_of(s: Seq<char>) -> Result<Vec<(String, String)>, String>;

/// What the toml crate yields for a frontmatter text read as a table
/// of string keys to string values: the pairs in the table's sorted
/// key order, or the error text.
pub uninterp spec fn toml_pairs_of(s: Seq<char>) -> Result<Vec<(String, String)>, String>;

/// Relies on serde_yaml::from_str with a string-to-string map target:
/// a YAML mapping of string keys to string scalars becomes key/value
/// pairs sorted by key; any other document shape is an error. The
/// result depends on the text alone.
#[verifier::external_body]
fn yaml_kv_pairs(s: &str) -> (r: Result<Vec<(String, String)>, String>)
    ensures
        r == yaml_pairs_of(s@),
{
    match serde_yaml::from_str::<std::collections::BTreeMap<String, String>>(s) {
        Ok(m) => Ok(m.into_iter().collect()),
        Err(e) => Err(format!("{e:?}")),
    }
}

/// Relies on toml::from_str with a string-to-string map target: a TOML
/// table of string keys to string values becomes key/value pairs
/// sorted by key; any other document shape is an error. The result
/// depends on the text alone.
#[verifier::external_body]
fn toml_kv_pairs(s: &str) -> (r: Result<Vec<(String, String)>, String>)
    ensures
        r == toml_pairs_of(s@),
{
    match toml::from_str::<std::collections::BTreeMap<String, String>>(s) {
        Ok(m) => Ok(m.into_iter().collect()),
        Err(e) => Err(format!("{e:?}")),
    }
}

/// The value of the first pair whose key is `key`.
pub open spec fn lookup_pair(pairs: Seq<(String, String)>, key: Seq<char>) -> Option<Seq<char>>
    decreases pairs.len(),
{
    if pairs.len() == 0 {
        None
    } else if pairs[0].0@ == key {
        Some(pairs[0].1@)
    } else {
        lookup_pair(pairs.drop_first(), key)
    }
}

fn find_value(pairs: &Vec<(String, String)>, key: &str) -> (r: Option<String>)
    ensures
        r matches Some(v) ==> lookup_pair(pairs@, key@) == Some(v@),
        r is None ==> lookup_pair(pairs@, key@) is None,
{
    let mut i: usize = 0;
    proof {
        assert(pairs@.skip(0) =~= pairs@);
    }
    while i < pairs.len()
        invariant
            0 <= i <= pairs@.len(),
            lookup_pair(pairs@, key@) == lookup_pair(pairs@.skip(i as int), key@),
        decreases pairs@.len() - i,
    {
        if str_eq(pairs[i].0.as_str(), key) {
            proof {
                assert(pairs@.skip(i as int)[0] == pairs@[i as int]);
            }
            return Some(pairs[i].1.clone());
        }
        proof {
            assert(pairs@.skip(i as int).drop_first() =~= pairs@.skip(i as int + 1));
            assert(pairs@.skip(i as int)[0] == pairs@[i as int]);
        }
        i = i + 1;
    }
    proof {
        assert(pairs@.skip(i as int).len() == 0);
    }
    None
}

/// Relates a pair list to the metadata record built from it: the four
/// fields must be present, and the date must name a valid calendar
/// date; the first failing requirement decides the error text.
pub open spec fn spec_metadata_from_pairs(
    pairs: Seq<(String, String)>,
    r: Result<PostMetadata, String>,
) -> bool {
    if lookup_pair(pairs, "title"@) is None {
        r matches Err(e) && e@ == "missing field `title`"@
    } else if lookup_pair(pairs, "author"@) is None {
        r matches Err(e) && e@ == "missing field `author`"@
    } else if lookup_pair(pairs, "description"@) is None {
        r matches Err(e) && e@ == "missing field `description`"@
    } else if lookup_pair(pairs, "date"@) is None {
        r matches Err(e) && e@ == "missing field `date`"@
    } else {
        match spec_parse_date(lookup_pair(pairs, "date"@)->Some_0) {
            Some(d) => r matches Ok(m) && m.title@ == lookup_pair(pairs, "title"@)->Some_0
                && m.author@ == lookup_pair(pairs, "author"@)->Some_0 && m.description@
                == lookup_pair(pairs, "description"@)->Some_0 && m.date == d,
            None => r matches Err(e) && e@ == "invalid date (expected YYYY-MM-DD)"@,
        }
    }
}

/// Builds the metadata record from key/value pairs.
pub fn metadata_from_pairs(pairs: &Vec<(String, String)>) -> (r: Result<PostMetadata, String>)
    ensures
        spec_metadata_from_pairs(pairs@, r),
{
    let title = match find_value(pairs, "title") {
        Some(v) => v,
        None => {
            return Err(String::from_str("missing field `title`"));
        },
    };
    let author = match find_value(pairs, "author") {
        Some(v) => v,
        None => {
            return Err(String::from_str("missing field `author`"));
        },
    };
    let description = match find_value(pairs, "description") {
        Some(v) => v,
        None => {
            return Err(String::from_str("missing field `description`"));
        },
    };
    let date_text = match find_value(pairs, "date") {
        Some(v) => v,
        None => {
            return Err(String::from_str("missing field `date`"));
        },
    };
    let date = match parse_date(date_text.as_str()) {
        Some(d) => d,
        None => {
            return Err(String::from_str("invalid date (expected YYYY-MM-DD)"));
        },
    };
    Ok(PostMetadata { title, author, description, date })
}

/// The four fields are present and the date names a valid calendar
/// date: exactly when building the record succeeds.
pub open spec fn pairs_meta_ok(pairs: Seq<(String, String)>) -> bool {
    &&& lookup_pair(pairs, "title"@) is Some
    &&& lookup_pair(pairs, "author"@) is Some
    &&& lookup_pair(pairs, "description"@) is Some
    &&& lookup_pair(pairs, "date"@) matches Some(d) && spec_parse_date(d) is Some
}

/// A frontmatter text yields a metadata record: the text deserializes
/// to pairs and the pairs carry the four fields with a valid date.
pub open spec fn meta_text_ok(s: Seq<char>, yaml: bool) -> bool {
    (if yaml {
        yaml_pairs_of(s)
    } else {
        toml_pairs_of(s)
    }) matches Ok(pairs) && pairs_meta_ok(pairs@)
}

/// The error text reading metadata from a frontmatter text yields, if
/// any: the deserializer's own reason, the first missing field, or the
/// invalid date. `None` exactly when a record is produced.
pub open spec fn meta_err(s: Seq<char>, yaml: bool) -> Option<Seq<char>> {
    match (if yaml {
        yaml_pairs_of(s)
    } else {
        toml_pairs_of(s)
    }) {
        Err(e) => Some(e@),
        Ok(pairs) => {
            if lookup_pair(pairs@, "title"@) is None {
                Some("missing field `title`"@)
            } else if lookup_pair(pairs@, "author"@) is None {
                Some("missing field `author`"@)
            } else if lookup_pair(pairs@, "description"@) is None {
                Some("missing field `description`"@)
            } else if lookup_pair(pairs@, "date"@) is None {
                Some("missing field `date`"@)
            } else if spec_parse_date(lookup_pair(pairs@, "date"@)->Some_0) is None {
                Some("invalid date (expected YYYY-MM-DD)"@)
            } else {
                None
            }
        },
    }
}

/// The reading relation determines the error text: a failure carries
/// exactly `meta_err`'s text, and a record comes exactly when there is
/// none.
pub proof fn lemma_meta_err(s: Seq<char>, yaml: bool, r: Result<PostMetadata, String>)
    requires
        if yaml {
            spec_metadata_from_yaml(s, r)
        } else {
            spec_metadata_from_toml(s, r)
        },
    ensures
        match meta_err(s, yaml) {
            Some(d) => r matches Err(e) && e@ == d,
            None => r is Ok,
        },
{
}

/// Success of reading metadata from a text coincides with
/// `meta_text_ok`.
pub proof fn lemma_meta_text_shape(s: Seq<char>, yaml: bool, r: Result<PostMetadata, String>)
    requires
        if yaml {
            spec_metadata_from_yaml(s, r)
        } else {
            spec_metadata_from_toml(s, r)
        },
    ensures
        (r is Ok) == meta_text_ok(s, yaml),
{
}

/// Relates a YAML frontmatter text to the metadata read from it.
pub open spec fn spec_metadata_from_yaml(s: Seq<char>, r: Result<PostMetadata, String>) -> bool {
    match yaml_pairs_of(s) {
        Ok(pairs) => spec_metadata_from_pairs(pairs@, r),
        Err(e) => r matches Err(d) && d@ == e@,
    }
}

/// Relates a TOML frontmatter text to the metadata read from it.
pub open spec fn spec_metadata_from_toml(s: Seq<char>, r: Result<PostMetadata, String>) -> bool {
    match toml_pairs_of(s) {
        Ok(pairs) => spec_metadata_from_pairs(pairs@, r),
        Err(e) => r matches Err(d) && d@ == e@,
    }
}

/// Reads the metadata record from a YAML frontmatter text.
pub fn metadata_from_yaml(s: &str) -> (r: Result<PostMetadata, String>)
    ensures
        spec_metadata_from_yaml(s@, r),
{
    match yaml_kv_pairs(s) {
        Ok(pairs) => metadata_from_pairs(&pairs),
        Err(e) => Err(e),
    }
}

/// Reads the metadata record from a TOML frontmatter text.
pub fn metadata_from_toml(s: &str) -> (r: Result<PostMetadata, String>)
    ensures
        spec_metadata_from_toml(s@, r),
{
    match toml_kv_pairs(s) {
        Ok(pairs) => metadata_from_pairs(&pairs),
        Err(e) => Err(e),
    }
}

} // verus!
