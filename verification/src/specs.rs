//! The library of spec profiles: for each class and specialisation, the
//! spells that count as major cooldowns and as active mitigation.
//!
//! A profile is written as a TOML document:
//!
//! ```text
//! [spec]
//! class = "PALADIN"
//! spec = "Retribution"
//! role = "dps"
//!
//! [spec.cooldowns]
//! major_cd_spell_ids = [31884, 231895]
//!
//! [spec.active_mitigation]
//! am_spell_ids = [498]
//! ```
//!
//! The `toml` crate reads the document; what it read is taken on trust and
//! named by the `toml_*` functions. Which documents are profiles, and what
//! a lookup finds, is proved over those names.

use crate::text::{
    after_first, before_first, eq_ignore_ascii_case, eq_ignore_case, split_once,
};
use vstd::prelude::*;
use vstd::string::StringExecFns;

verus! {

// ---------------------------------------------------------------------------
// The TOML reader
// ---------------------------------------------------------------------------

/// A value of a TOML document, as the `toml` crate holds it.
#[verifier::external_type_specification]
#[verifier::external_body]
pub struct ExTomlValue(toml::Value);

/// The document that the `toml` crate reads from a text, if it reads one.
pub uninterp spec fn toml_parsed(text: Seq<char>) -> Option<toml::Value>;

/// The value under `key` in a table; `None` for a missing key and for a
/// value that is no table.
pub uninterp spec fn toml_entry(v: toml::Value, key: Seq<char>) -> Option<toml::Value>;

/// The characters of a string value; `None` for any other value.
pub uninterp spec fn toml_text(v: toml::Value) -> Option<Seq<char>>;

/// The number of an integer value; `None` for any other value.
pub uninterp spec fn toml_integer(v: toml::Value) -> Option<i64>;

/// The items of an array value, in order; `None` for any other value.
pub uninterp spec fn toml_items(v: toml::Value) -> Option<Seq<toml::Value>>;

/// `<toml::Value as FromStr>::from_str`: reads a whole document. Trusted:
/// the result is the document named `toml_parsed`, `None` where the crate
/// reports an error.
#[verifier::external_body]
fn parse_document(text: &str) -> (r: Option<toml::Value>)
    ensures
        r == toml_parsed(text@),
{
    match text.parse::<toml::Value>() {
        Ok(v) => Some(v),
        Err(_) => None,
    }
}

/// `toml::Value::get` with a string key. Trusted: the result is the entry
/// named `toml_entry`.
#[verifier::external_body]
fn entry<'a>(v: &'a toml::Value, key: &str) -> (r: Option<&'a toml::Value>)
    ensures
        match r {
            Some(x) => toml_entry(*v, key@) == Some(*x),
            None => toml_entry(*v, key@) is None,
        },
{
    v.get(key)
}

/// `toml::Value::as_str`. Trusted: the result is the text named
/// `toml_text`.
#[verifier::external_body]
fn text_of<'a>(v: &'a toml::Value) -> (r: Option<&'a str>)
    ensures
        match r {
            Some(s) => toml_text(*v) == Some(s@),
            None => toml_text(*v) is None,
        },
{
    v.as_str()
}

/// `toml::Value::as_integer`. Trusted: the result is the number named
/// `toml_integer`.
#[verifier::external_body]
fn integer_of(v: &toml::Value) -> (r: Option<i64>)
    ensures
        r == toml_integer(*v),
{
    v.as_integer()
}

/// `toml::Value::as_array`. Trusted: the result holds the items named
/// `toml_items`.
#[verifier::external_body]
fn items_of<'a>(v: &'a toml::Value) -> (r: Option<&'a Vec<toml::Value>>)
    ensures
        match r {
            Some(a) => toml_items(*v) == Some(a@),
            None => toml_items(*v) is None,
        },
{
    v.as_array()
}

// ---------------------------------------------------------------------------
// Profiles
// ---------------------------------------------------------------------------

/// The spells of one specialisation.
#[derive(Debug)]
pub struct SpecProfile {
    pub class: String,
    pub spec_name: String,
    pub role: String,
    /// Spell ids of the major cooldowns.
    pub major_cd_spell_ids: Vec<u32>,
    /// Spell ids of active mitigation and defensive abilities.
    pub am_spell_ids: Vec<u32>,
}

/// The mathematical value of a `SpecProfile`.
pub struct ProfileModel {
    pub class: Seq<char>,
    pub spec_name: Seq<char>,
    pub role: Seq<char>,
    pub major_cd_spell_ids: Seq<u32>,
    pub am_spell_ids: Seq<u32>,
}

impl View for SpecProfile {
    type V = ProfileModel;

    open spec fn view(&self) -> ProfileModel {
        ProfileModel {
            class: self.class@,
            spec_name: self.spec_name@,
            role: self.role@,
            major_cd_spell_ids: self.major_cd_spell_ids@,
            am_spell_ids: self.am_spell_ids@,
        }
    }
}

/// A copy of a list of spell ids.
pub fn copy_ids(ids: &Vec<u32>) -> (r: Vec<u32>)
    ensures
        r@ == ids@,
{
    let mut out: Vec<u32> = Vec::new();
    let mut i: usize = 0;
    while i < ids.len()
        invariant
            i <= ids.len(),
            out@ == ids@.take(i as int),
        decreases ids.len() - i,
    {
        out.push(ids[i]);
        assert(out@ =~= ids@.take(i + 1));
        i += 1;
    }
    assert(ids@.take(i as int) =~= ids@);
    out
}

impl Clone for SpecProfile {
    fn clone(&self) -> (r: Self)
        ensures
            r@ == self@,
    {
        SpecProfile {
            class: self.class.clone(),
            spec_name: self.spec_name.clone(),
            role: self.role.clone(),
            major_cd_spell_ids: copy_ids(&self.major_cd_spell_ids),
            am_spell_ids: copy_ids(&self.am_spell_ids),
        }
    }
}

/// The key of a class and a specialisation: the two joined by a slash.
pub open spec fn spec_key(class: Seq<char>, spec_name: Seq<char>) -> Seq<char> {
    class + "/"@ + spec_name
}

impl SpecProfile {
    /// The `CLASS/Spec` key under which the profile is stored and shown.
    pub fn key(&self) -> (r: String)
        ensures
            r@ == spec_key(self@.class, self@.spec_name),
    {
        let mut out = self.class.clone();
        out.append("/");
        out.append(self.spec_name.as_str());
        out
    }
}

/// What a list of choices shows of a profile.
#[derive(Debug)]
pub struct SpecInfo {
    /// The `CLASS/Spec` key.
    pub key: String,
    pub class: String,
    pub spec: String,
    pub role: String,
}

/// The mathematical value of a `SpecInfo`.
pub struct InfoModel {
    pub key: Seq<char>,
    pub class: Seq<char>,
    pub spec: Seq<char>,
    pub role: Seq<char>,
}

impl View for SpecInfo {
    type V = InfoModel;

    open spec fn view(&self) -> InfoModel {
        InfoModel { key: self.key@, class: self.class@, spec: self.spec@, role: self.role@ }
    }
}

impl Clone for SpecInfo {
    fn clone(&self) -> (r: Self)
        ensures
            r@ == self@,
    {
        SpecInfo {
            key: self.key.clone(),
            class: self.class.clone(),
            spec: self.spec.clone(),
            role: self.role.clone(),
        }
    }
}

// ---------------------------------------------------------------------------
// Reading a profile
// ---------------------------------------------------------------------------

/// The spell ids that a sequence of values stands for: every value must be
/// an integer from 0 to the largest `u32`.
pub open spec fn ids_of_items(items: Seq<toml::Value>) -> Option<Seq<u32>>
    decreases items.len(),
{
    if items.len() == 0 {
        Some(Seq::empty())
    } else {
        match (ids_of_items(items.drop_last()), toml_integer(items.last())) {
            (Some(ids), Some(n)) => if 0 <= n <= u32::MAX {
                Some(ids.push(n as u32))
            } else {
                None
            },
            _ => None,
        }
    }
}

/// The spell ids under `key` in the table `table`: the entry must be there
/// and be an array of ids.
pub open spec fn ids_under(table: toml::Value, key: Seq<char>) -> Option<Seq<u32>> {
    match toml_entry(table, key) {
        Some(list) => match toml_items(list) {
            Some(items) => ids_of_items(items),
            None => None,
        },
        None => None,
    }
}

/// The text under `key` in the table `table`, if the entry is a string.
pub open spec fn text_under(table: toml::Value, key: Seq<char>) -> Option<Seq<char>> {
    match toml_entry(table, key) {
        Some(v) => toml_text(v),
        None => None,
    }
}

/// Whether an entry that may be left out is well formed where it is
/// there: a description must be a string, a rotation must list its
/// primary spells.
pub open spec fn optional_parts_ok(meta: toml::Value) -> bool {
    &&& toml_entry(meta, "description"@) is Some ==> text_under(meta, "description"@) is Some
    &&& toml_entry(meta, "rotation"@) is Some ==> ids_under(
        toml_entry(meta, "rotation"@)->0,
        "primary_spell_ids"@,
    ) is Some
}

/// The profile that a document holds.
///
/// The document needs a table `spec` with the strings `class`, `spec` and
/// `role` and a table `cooldowns` that lists `major_cd_spell_ids`. A table
/// `active_mitigation` may be left out; where it is there it lists
/// `am_spell_ids`. Anything else in the way gives no profile.
pub open spec fn spec_profile(doc: toml::Value) -> Option<ProfileModel> {
    match toml_entry(doc, "spec"@) {
        Some(meta) => {
            let am = match toml_entry(meta, "active_mitigation"@) {
                Some(t) => ids_under(t, "am_spell_ids"@),
                None => Some(Seq::empty()),
            };
            let cds = match toml_entry(meta, "cooldowns"@) {
                Some(t) => ids_under(t, "major_cd_spell_ids"@),
                None => None,
            };
            match (
                text_under(meta, "class"@),
                text_under(meta, "spec"@),
                text_under(meta, "role"@),
                cds,
                am,
            ) {
                (Some(class), Some(spec_name), Some(role), Some(major), Some(mitigation)) => {
                    if optional_parts_ok(meta) {
                        Some(
                            ProfileModel {
                                class,
                                spec_name,
                                role,
                                major_cd_spell_ids: major,
                                am_spell_ids: mitigation,
                            },
                        )
                    } else {
                        None
                    }
                },
                _ => None,
            }
        },
        None => None,
    }
}

/// The profile written in `text`, if the text is a TOML document and the
/// document holds a profile.
pub open spec fn spec_parse_profile(text: Seq<char>) -> Option<ProfileModel> {
    match toml_parsed(text) {
        Some(doc) => spec_profile(doc),
        None => None,
    }
}

/// The value of an optional profile.
pub open spec fn profile_view(p: Option<SpecProfile>) -> Option<ProfileModel> {
    match p {
        Some(x) => Some(x@),
        None => None,
    }
}

/// The spell ids under `key` in `table`.
fn read_ids(table: &toml::Value, key: &str) -> (r: Option<Vec<u32>>)
    ensures
        match r {
            Some(ids) => ids_under(*table, key@) == Some(ids@),
            None => ids_under(*table, key@) is None,
        },
{
    let list = match entry(table, key) {
        Some(v) => v,
        None => {
            return None;
        },
    };
    let items = match items_of(list) {
        Some(a) => a,
        None => {
            return None;
        },
    };
    let mut out: Vec<u32> = Vec::new();
    let mut i: usize = 0;
    assert(items@.take(0) =~= Seq::<toml::Value>::empty());
    while i < items.len()
        invariant
            i <= items.len(),
            ids_of_items(items@.take(i as int)) == Some(out@),
            ids_under(*table, key@) == ids_of_items(items@),
        decreases items.len() - i,
    {
        let ghost next = items@.take(i + 1);
        assert(next.drop_last() =~= items@.take(i as int));
        assert(next.last() == items@[i as int]);
        let n = match integer_of(&items[i]) {
            Some(n) => n,
            None => {
                proof {
                    lemma_ids_prefix(items@, i + 1);
                }
                return None;
            },
        };
        if n < 0 || n > 0xffff_ffff {
            proof {
                lemma_ids_prefix(items@, i + 1);
            }
            return None;
        }
        out.push(n as u32);
        i += 1;
    }
    assert(items@.take(i as int) =~= items@);
    Some(out)
}

/// Where a prefix of a list is no list of ids, the whole list is none.
pub proof fn lemma_ids_prefix(items: Seq<toml::Value>, k: int)
    requires
        0 <= k <= items.len(),
        ids_of_items(items.take(k)) is None,
    ensures
        ids_of_items(items) is None,
    decreases items.len() - k,
{
    if k < items.len() {
        assert(items.take(k + 1).drop_last() =~= items.take(k));
        lemma_ids_prefix(items, k + 1);
    } else {
        assert(items.take(k) =~= items);
    }
}

/// The text under `key` in `table`, as an owned string.
fn read_text(table: &toml::Value, key: &str) -> (r: Option<String>)
    ensures
        match r {
            Some(s) => text_under(*table, key@) == Some(s@),
            None => text_under(*table, key@) is None,
        },
{
    match entry(table, key) {
        Some(v) => match text_of(v) {
            Some(s) => Some(s.to_owned()),
            None => None,
        },
        None => None,
    }
}

/// Whether the entries that may be left out are well formed.
fn check_optional_parts(meta: &toml::Value) -> (r: bool)
    ensures
        r == optional_parts_ok(*meta),
{
    let description_ok = match entry(meta, "description") {
        Some(v) => text_of(v).is_some(),
        None => true,
    };
    let rotation_ok = match entry(meta, "rotation") {
        Some(t) => read_ids(t, "primary_spell_ids").is_some(),
        None => true,
    };
    description_ok && rotation_ok
}

/// Reads the profile that a document holds.
pub fn profile_from_document(doc: &toml::Value) -> (r: Option<SpecProfile>)
    ensures
        profile_view(r) == spec_profile(*doc),
{
    let meta = match entry(doc, "spec") {
        Some(m) => m,
        None => {
            return None;
        },
    };
    let class = match read_text(meta, "class") {
        Some(s) => s,
        None => {
            return None;
        },
    };
    let spec_name = match read_text(meta, "spec") {
        Some(s) => s,
        None => {
            return None;
        },
    };
    let role = match read_text(meta, "role") {
        Some(s) => s,
        None => {
            return None;
        },
    };
    let major = match entry(meta, "cooldowns") {
        Some(t) => match read_ids(t, "major_cd_spell_ids") {
            Some(ids) => ids,
            None => {
                return None;
            },
        },
        None => {
            return None;
        },
    };
    let mitigation = match entry(meta, "active_mitigation") {
        Some(t) => match read_ids(t, "am_spell_ids") {
            Some(ids) => ids,
            None => {
                return None;
            },
        },
        None => Vec::new(),
    };
    if !check_optional_parts(meta) {
        return None;
    }
    Some(
        SpecProfile {
            class,
            spec_name,
            role,
            major_cd_spell_ids: major,
            am_spell_ids: mitigation,
        },
    )
}

/// Reads the profile written in `text`.
pub fn parse_profile(text: &str) -> (r: Option<SpecProfile>)
    ensures
        profile_view(r) == spec_parse_profile(text@),
{
    match parse_document(text) {
        Some(doc) => profile_from_document(&doc),
        None => None,
    }
}

/// The values of a list of profiles.
pub open spec fn profile_views(v: Seq<SpecProfile>) -> Seq<ProfileModel> {
    Seq::new(v.len(), |i: int| v[i]@)
}

/// The profiles written in `texts`, in order, without the texts that hold
/// none.
pub open spec fn spec_parse_all(texts: Seq<Seq<char>>) -> Seq<ProfileModel>
    decreases texts.len(),
{
    if texts.len() == 0 {
        Seq::empty()
    } else {
        match spec_parse_profile(texts.last()) {
            Some(p) => spec_parse_all(texts.drop_last()).push(p),
            None => spec_parse_all(texts.drop_last()),
        }
    }
}

/// Reads every profile of `texts`; a text that holds none is passed over.
pub fn parse_all(texts: &Vec<String>) -> (r: Vec<SpecProfile>)
    ensures
        profile_views(r@) == spec_parse_all(crate::ipc::string_views(texts@)),
{
    let ghost tv = crate::ipc::string_views(texts@);
    let mut out: Vec<SpecProfile> = Vec::new();
    let mut i: usize = 0;
    assert(tv.take(0) =~= Seq::<Seq<char>>::empty());
    assert(profile_views(out@) =~= Seq::<ProfileModel>::empty());
    while i < texts.len()
        invariant
            i <= texts.len(),
            tv == crate::ipc::string_views(texts@),
            profile_views(out@) == spec_parse_all(tv.take(i as int)),
        decreases texts.len() - i,
    {
        assert(tv.take(i + 1).drop_last() =~= tv.take(i as int));
        assert(tv.take(i + 1).last() == texts@[i as int]@);
        match parse_profile(texts[i].as_str()) {
            Some(p) => {
                assert(profile_views(out@.push(p)) =~= profile_views(out@).push(p@));
                out.push(p);
            },
            None => {},
        }
        i += 1;
    }
    assert(tv.take(i as int) =~= tv);
    out
}

// ---------------------------------------------------------------------------
// Lookups
// ---------------------------------------------------------------------------

/// What `list_all` shows of a profile.
pub open spec fn info_of(p: ProfileModel) -> InfoModel {
    InfoModel {
        key: spec_key(p.class, p.spec_name),
        class: p.class,
        spec: p.spec_name,
        role: p.role,
    }
}

/// The values of a list of infos.
pub open spec fn info_views(v: Seq<SpecInfo>) -> Seq<InfoModel> {
    Seq::new(v.len(), |i: int| v[i]@)
}

/// Key, class, specialisation and role of every profile, in order.
pub fn list_all(profiles: &Vec<SpecProfile>) -> (r: Vec<SpecInfo>)
    ensures
        info_views(r@) == Seq::new(profiles@.len(), |i: int| info_of(profiles@[i]@)),
{
    let mut out: Vec<SpecInfo> = Vec::new();
    let mut i: usize = 0;
    while i < profiles.len()
        invariant
            i <= profiles.len(),
            out.len() == i,
            forall|j: int| 0 <= j < i ==> (#[trigger] out@[j])@ == info_of(profiles@[j]@),
        decreases profiles.len() - i,
    {
        let p = &profiles[i];
        out.push(
            SpecInfo {
                key: p.key(),
                class: p.class.clone(),
                spec: p.spec_name.clone(),
                role: p.role.clone(),
            },
        );
        i += 1;
    }
    assert(info_views(out@) =~= Seq::new(profiles@.len(), |i: int| info_of(profiles@[i]@)));
    out
}

/// Whether a profile is the one for `class` and `spec_name`, the case of
/// ASCII letters set aside.
pub open spec fn profile_matches(p: ProfileModel, class: Seq<char>, spec_name: Seq<char>) -> bool {
    eq_ignore_case(p.class, class) && eq_ignore_case(p.spec_name, spec_name)
}

/// The first of `profiles` for `class` and `spec_name`.
pub open spec fn spec_load(
    profiles: Seq<ProfileModel>,
    class: Seq<char>,
    spec_name: Seq<char>,
) -> Option<ProfileModel>
    decreases profiles.len(),
{
    if profiles.len() == 0 {
        None
    } else if profile_matches(profiles[0], class, spec_name) {
        Some(profiles[0])
    } else {
        spec_load(profiles.drop_first(), class, spec_name)
    }
}

/// `spec_load` finds the profile at `i` where none before it matches, and
/// nothing where none matches at all.
pub proof fn lemma_spec_load(
    profiles: Seq<ProfileModel>,
    class: Seq<char>,
    spec_name: Seq<char>,
    i: int,
)
    requires
        0 <= i <= profiles.len(),
        forall|j: int| 0 <= j < i ==> !profile_matches(profiles[j], class, spec_name),
        i < profiles.len() ==> profile_matches(profiles[i], class, spec_name),
    ensures
        spec_load(profiles, class, spec_name) == if i < profiles.len() {
            Some(profiles[i])
        } else {
            None
        },
    decreases profiles.len(),
{
    if profiles.len() > 0 && i > 0 {
        let t = profiles.drop_first();
        assert forall|j: int| 0 <= j < i - 1 implies !profile_matches(t[j], class, spec_name) by {
            assert(t[j] == profiles[j + 1]);
        }
        lemma_spec_load(t, class, spec_name, i - 1);
    }
}

/// Loads the profile of a class and a specialisation. The lookup ignores
/// the case of ASCII letters; the first profile that fits is returned.
pub fn load_spec(profiles: &Vec<SpecProfile>, class: &str, spec_name: &str) -> (r: Option<
    SpecProfile,
>)
    ensures
        profile_view(r) == spec_load(profile_views(profiles@), class@, spec_name@),
{
    let mut i: usize = 0;
    while i < profiles.len()
        invariant
            i <= profiles.len(),
            forall|j: int|
                0 <= j < i ==> !profile_matches(
                    #[trigger] profile_views(profiles@)[j],
                    class@,
                    spec_name@,
                ),
        decreases profiles.len() - i,
    {
        let p = &profiles[i];
        assert(profile_views(profiles@)[i as int] == p@);
        if eq_ignore_ascii_case(p.class.as_str(), class) && eq_ignore_ascii_case(
            p.spec_name.as_str(),
            spec_name,
        ) {
            proof {
                lemma_spec_load(profile_views(profiles@), class@, spec_name@, i as int);
            }
            return Some(p.clone());
        }
        i += 1;
    }
    proof {
        lemma_spec_load(profile_views(profiles@), class@, spec_name@, i as int);
    }
    None
}

/// The profile for a `CLASS/Spec` key: the key splits at its first slash.
pub open spec fn spec_load_by_key(profiles: Seq<ProfileModel>, key: Seq<char>) -> Option<
    ProfileModel,
> {
    match after_first(key, '/') {
        Some(spec_name) => spec_load(profiles, before_first(key, '/'), spec_name),
        None => None,
    }
}

/// Loads a profile by its `CLASS/Spec` key.
pub fn load_by_key(profiles: &Vec<SpecProfile>, key: &str) -> (r: Option<SpecProfile>)
    ensures
        profile_view(r) == spec_load_by_key(profile_views(profiles@), key@),
{
    let (class, rest) = split_once(key, '/');
    match rest {
        Some(spec_name) => load_spec(profiles, class, spec_name),
        None => None,
    }
}

} // verus!
