//! Settings outside coaching proper, and the choice of the log file to
//! follow.

use crate::text::{
    ends_with, find_char, first_index, has_prefix, has_suffix, starts_with, str_eq, to_chars,
};
use vstd::prelude::*;

verus! {

/// The default of a switch that is on unless turned off.
pub fn bool_true() -> (r: bool)
    ensures
        r,
{
    true
}

/// The coaching intensity of a fresh configuration.
pub fn default_intensity() -> (r: u8)
    ensures
        r == 3,
{
    3
}

/// Global hotkey bindings.
#[derive(Debug)]
pub struct HotkeyConfig {
    /// Key combination that shows and hides the overlay, such as
    /// `Ctrl+Shift+O`; empty for none.
    pub toggle_overlay: String,
}

impl Default for HotkeyConfig {
    fn default() -> (r: Self)
        ensures
            r.toggle_overlay@ == Seq::<char>::empty(),
    {
        HotkeyConfig { toggle_overlay: String::new() }
    }
}

impl Clone for HotkeyConfig {
    fn clone(&self) -> (r: Self)
        ensures
            r.toggle_overlay@ == self.toggle_overlay@,
    {
        HotkeyConfig { toggle_overlay: self.toggle_overlay.clone() }
    }
}

/// A character found in the game's settings tree.
#[derive(Debug)]
pub struct WtfCharacter {
    /// The character name.
    pub name: String,
    /// The realm name.
    pub realm: String,
    /// The account folder name.
    pub account: String,
}

impl Clone for WtfCharacter {
    fn clone(&self) -> (r: Self)
        ensures
            r.name@ == self.name@,
            r.realm@ == self.realm@,
            r.account@ == self.account@,
    {
        WtfCharacter {
            name: self.name.clone(),
            realm: self.realm.clone(),
            account: self.account.clone(),
        }
    }
}

/// Whether a folder beside the realms of an account is a realm: it is not
/// the folder of saved variables, and its name has no dot.
pub open spec fn is_realm_name(name: Seq<char>) -> bool {
    name != "SavedVariables"@ && first_index(name, '.') >= name.len()
}

/// Whether a folder of an account is the folder of a realm.
pub fn is_realm_folder(name: &str) -> (r: bool)
    ensures
        r == is_realm_name(name@),
{
    if str_eq(name, "SavedVariables") {
        return false;
    }
    let chars = to_chars(name);
    assert(chars@.skip(0) =~= chars@);
    find_char(&chars, 0, '.') >= chars.len()
}

/// The mathematical value of a `WtfCharacter`.
pub struct CharacterModel {
    pub name: Seq<char>,
    pub realm: Seq<char>,
    pub account: Seq<char>,
}

impl View for WtfCharacter {
    type V = CharacterModel;

    open spec fn view(&self) -> CharacterModel {
        CharacterModel { name: self.name@, realm: self.realm@, account: self.account@ }
    }
}

/// The values of a list of characters.
pub open spec fn character_views(v: Seq<WtfCharacter>) -> Seq<CharacterModel> {
    Seq::new(v.len(), |i: int| v[i]@)
}

/// How one text stands to another in the order of a dictionary.
#[derive(Debug, Clone, Copy, PartialEq, Eq, Structural)]
pub enum Rank {
    Before,
    Same,
    After,
}

/// How `a` stands to `b` in the order of a dictionary, character by
/// character, a character with the lesser code point first and a text
/// before any text that continues it.
pub open spec fn spec_rank(a: Seq<char>, b: Seq<char>) -> Rank
    decreases a.len(),
{
    if a.len() == 0 && b.len() == 0 {
        Rank::Same
    } else if a.len() == 0 {
        Rank::Before
    } else if b.len() == 0 {
        Rank::After
    } else if a[0] == b[0] {
        spec_rank(a.drop_first(), b.drop_first())
    } else if a[0] < b[0] {
        Rank::Before
    } else {
        Rank::After
    }
}

/// How `a` stands to `b` in the order of a dictionary.
pub fn rank_text(a: &str, b: &str) -> (r: Rank)
    ensures
        r == spec_rank(a@, b@),
{
    let x = to_chars(a);
    let y = to_chars(b);
    let mut i: usize = 0;
    assert(x@.skip(0) =~= x@ && y@.skip(0) =~= y@);
    loop
        invariant
            i <= x.len(),
            i <= y.len(),
            x@ == a@,
            y@ == b@,
            spec_rank(a@, b@) == spec_rank(x@.skip(i as int), y@.skip(i as int)),
        decreases x.len() - i,
    {
        let ghost xs = x@.skip(i as int);
        let ghost ys = y@.skip(i as int);
        if i == x.len() && i == y.len() {
            return Rank::Same;
        } else if i == x.len() {
            return Rank::Before;
        } else if i == y.len() {
            return Rank::After;
        }
        assert(xs[0] == x@[i as int] && ys[0] == y@[i as int]);
        if x[i] != y[i] {
            if x[i] < y[i] {
                return Rank::Before;
            } else {
                return Rank::After;
            }
        }
        assert(xs.drop_first() =~= x@.skip(i + 1));
        assert(ys.drop_first() =~= y@.skip(i + 1));
        i += 1;
    }
}

/// Whether character `x` is listed before character `y`: its realm comes
/// first, or the realms are the same and its name comes first.
pub open spec fn listed_before(x: CharacterModel, y: CharacterModel) -> bool {
    spec_rank(x.realm, y.realm) == Rank::Before || (spec_rank(x.realm, y.realm) == Rank::Same
        && spec_rank(x.name, y.name) == Rank::Before)
}

/// Whether character `x` is listed before character `y`.
pub fn is_listed_before(x: &WtfCharacter, y: &WtfCharacter) -> (r: bool)
    ensures
        r == listed_before(x@, y@),
{
    match rank_text(x.realm.as_str(), y.realm.as_str()) {
        Rank::Before => true,
        Rank::Same => match rank_text(x.name.as_str(), y.name.as_str()) {
            Rank::Before => true,
            _ => false,
        },
        Rank::After => false,
    }
}

/// A list in order with `x` added: behind every character that is not
/// listed after it.
pub open spec fn with_character(s: Seq<CharacterModel>, x: CharacterModel) -> Seq<CharacterModel>
    decreases s.len(),
{
    if s.len() > 0 && listed_before(x, s.last()) {
        with_character(s.drop_last(), x).push(s.last())
    } else {
        s.push(x)
    }
}

/// The characters of `found` whose realm folder is a realm, by realm and
/// name; characters of one realm and name stay in the order found.
pub open spec fn spec_list_characters(found: Seq<CharacterModel>) -> Seq<CharacterModel>
    decreases found.len(),
{
    if found.len() == 0 {
        Seq::empty()
    } else if is_realm_name(found.last().realm) {
        with_character(spec_list_characters(found.drop_last()), found.last())
    } else {
        spec_list_characters(found.drop_last())
    }
}

/// Adding `x` puts it at position `i`, where every character from `i` on
/// is listed after it and the one before `i`, if any, is not.
pub proof fn lemma_with_character_at(s: Seq<CharacterModel>, x: CharacterModel, i: int)
    requires
        0 <= i <= s.len(),
        forall|j: int| i <= j < s.len() ==> listed_before(x, #[trigger] s[j]),
        i > 0 ==> !listed_before(x, s[i - 1]),
    ensures
        with_character(s, x) == s.insert(i, x),
    decreases s.len(),
{
    if i == s.len() {
        assert(s.insert(i, x) =~= s.push(x));
    } else {
        let t = s.drop_last();
        assert(listed_before(x, s[s.len() - 1]));
        assert forall|j: int| i <= j < t.len() implies listed_before(x, #[trigger] t[j]) by {
            assert(t[j] == s[j]);
        }
        lemma_with_character_at(t, x, i);
        assert(t.insert(i, x).push(s.last()) =~= s.insert(i, x));
    }
}

/// Whether no character of a list is listed before the one in front of
/// it.
pub open spec fn in_order(s: Seq<CharacterModel>) -> bool {
    forall|j: int| 0 < j < s.len() ==> !listed_before(#[trigger] s[j], s[j - 1])
}

/// Adding a character to a list in order gives a list in order, with the
/// same characters and the new one.
pub proof fn lemma_with_character_keeps_order(s: Seq<CharacterModel>, x: CharacterModel)
    requires
        in_order(s),
    ensures
        in_order(with_character(s, x)),
        with_character(s, x).to_multiset() == s.to_multiset().insert(x),
    decreases s.len(),
{
    broadcast use vstd::seq_lib::group_to_multiset_ensures;

    let r = with_character(s, x);
    if s.len() > 0 && listed_before(x, s.last()) {
        let t = s.drop_last();
        assert forall|j: int| 0 < j < t.len() implies !listed_before(#[trigger] t[j], t[j - 1]) by {
            assert(t[j] == s[j] && t[j - 1] == s[j - 1]);
        }
        lemma_with_character_keeps_order(t, x);
        let u = with_character(t, x);
        lemma_rank_is_one_way(x.realm, s.last().realm);
        lemma_rank_is_one_way(x.name, s.last().name);
        lemma_last_of_with_character(t, x);
        assert forall|j: int| 0 < j < r.len() implies !listed_before(#[trigger] r[j], r[j - 1]) by {
            if j < u.len() {
                assert(r[j] == u[j] && r[j - 1] == u[j - 1]);
            } else {
                assert(r[j] == s.last());
                assert(r[j - 1] == u.last());
                if t.len() > 0 && u.last() == t.last() {
                    assert(t.last() == s[s.len() - 2]);
                }
            }
        }
        assert(s =~= t.push(s.last()));
        assert(r.to_multiset() =~= s.to_multiset().insert(x));
    } else {
        assert forall|j: int| 0 < j < r.len() implies !listed_before(#[trigger] r[j], r[j - 1]) by {
            if j < s.len() {
                assert(r[j] == s[j] && r[j - 1] == s[j - 1]);
            }
        }
    }
}

/// The last of a list with `x` added is `x` or the last of the list.
pub proof fn lemma_last_of_with_character(s: Seq<CharacterModel>, x: CharacterModel)
    ensures
        with_character(s, x).len() == s.len() + 1,
        with_character(s, x).last() == x || (s.len() > 0 && with_character(s, x).last()
            == s.last()),
    decreases s.len(),
{
    if s.len() > 0 && listed_before(x, s.last()) {
        lemma_last_of_with_character(s.drop_last(), x);
    }
}

/// Of two texts, one standing before the other, the other does not stand
/// before the one.
pub proof fn lemma_rank_is_one_way(a: Seq<char>, b: Seq<char>)
    ensures
        spec_rank(a, b) == Rank::Before <==> spec_rank(b, a) == Rank::After,
        spec_rank(a, b) == Rank::Same <==> spec_rank(b, a) == Rank::Same,
    decreases a.len(),
{
    if a.len() > 0 && b.len() > 0 && a[0] == b[0] {
        lemma_rank_is_one_way(a.drop_first(), b.drop_first());
    }
}

/// The list of characters is in order and holds exactly the characters
/// found in realm folders.
pub proof fn lemma_listed_characters(found: Seq<CharacterModel>)
    ensures
        in_order(spec_list_characters(found)),
        spec_list_characters(found).to_multiset() == found.filter(
            |c: CharacterModel| is_realm_name(c.realm),
        ).to_multiset(),
    decreases found.len(),
{
    broadcast use vstd::seq_lib::group_to_multiset_ensures;

    let keep = |c: CharacterModel| is_realm_name(c.realm);
    reveal(Seq::filter);
    if found.len() > 0 {
        lemma_listed_characters(found.drop_last());
        if is_realm_name(found.last().realm) {
            lemma_with_character_keeps_order(spec_list_characters(found.drop_last()), found.last());
        }
        assert(found.filter(keep) == if keep(found.last()) {
            found.drop_last().filter(keep).push(found.last())
        } else {
            found.drop_last().filter(keep)
        });
    } else {
        assert(found.filter(keep) =~= Seq::<CharacterModel>::empty());
    }
}

/// Lists the characters found under the folders of an account: those in
/// realm folders, by realm and name.
pub fn list_characters(found: Vec<WtfCharacter>) -> (r: Vec<WtfCharacter>)
    ensures
        character_views(r@) == spec_list_characters(character_views(found@)),
{
    broadcast use vstd::std_specs::vec::axiom_spec_into_iter;

    let ghost all = found@;
    let mut out: Vec<WtfCharacter> = Vec::new();
    assert(character_views(all.take(0)) =~= Seq::<CharacterModel>::empty());
    assert(character_views(out@) =~= Seq::<CharacterModel>::empty());
    for c in it: found
        invariant
            it.seq() == all,
            character_views(out@) == spec_list_characters(
                character_views(all.take(it.index() as int)),
            ),
    {
        proof {
            let k = it.index() as int;
            assert(character_views(all.take(k + 1)).drop_last() =~= character_views(all.take(k)));
            assert(character_views(all.take(k + 1)).last() == c@);
        }
        if is_realm_folder(c.realm.as_str()) {
            let mut i: usize = out.len();
            while i > 0 && is_listed_before(&c, &out[i - 1])
                invariant
                    i <= out.len(),
                    forall|j: int|
                        i <= j < out.len() ==> listed_before(c@, #[trigger] character_views(out@)[j]),
                decreases i,
            {
                i -= 1;
            }
            proof {
                if i > 0 {
                    assert(character_views(out@)[i - 1] == out@[i - 1]@);
                }
                lemma_with_character_at(character_views(out@), c@, i as int);
            }
            let ghost before = character_views(out@);
            out.insert(i, c);
            assert(character_views(out@) =~= before.insert(i as int, c@));
        }
    }
    assert(all.take(all.len() as int) =~= all);
    out
}

// ---------------------------------------------------------------------------
// Which log to follow
// ---------------------------------------------------------------------------

/// Whether a file name is that of a combat log: it starts with
/// `WoWCombatLog` and ends with `.txt`.
pub open spec fn is_log_name(name: Seq<char>) -> bool {
    has_prefix(name, "WoWCombatLog"@) && has_suffix(name, ".txt"@)
}

/// Whether a file name is that of a combat log.
pub fn is_combat_log_name(name: &str) -> (r: bool)
    ensures
        r == is_log_name(name@),
{
    starts_with(name, "WoWCombatLog") && ends_with(name, ".txt")
}

/// A file of the log directory: its path, its name, and when it was last
/// modified.
#[derive(Debug)]
pub struct LogCandidate {
    pub path: String,
    pub name: String,
    /// Time of last modification; a greater value is a later time.
    pub modified: u64,
}

/// Whether the file at `i` is the one to follow: a combat log modified no
/// earlier than any other combat log, and listed before any other that
/// was modified at the same time.
pub open spec fn is_latest(entries: Seq<LogCandidate>, i: int) -> bool {
    &&& 0 <= i < entries.len()
    &&& is_log_name(entries[i].name@)
    &&& forall|j: int|
        0 <= j < entries.len() && is_log_name(#[trigger] entries[j].name@) ==> entries[j].modified
            < entries[i].modified || (entries[j].modified == entries[i].modified && i <= j)
}

/// The path of the combat log to follow among the files of the log
/// directory: the one modified last. `None` where the directory holds no
/// combat log.
pub fn find_latest_log(entries: &Vec<LogCandidate>) -> (r: Option<String>)
    ensures
        match r {
            Some(path) => exists|i: int| is_latest(entries@, i) && entries@[i].path@ == path@,
            None => forall|j: int|
                0 <= j < entries.len() ==> !is_log_name(#[trigger] entries@[j].name@),
        },
{
    let mut best: Option<usize> = None;
    let mut i: usize = 0;
    while i < entries.len()
        invariant
            i <= entries.len(),
            match best {
                Some(b) => b < i && is_latest(entries@.take(i as int), b as int),
                None => forall|j: int| 0 <= j < i ==> !is_log_name(#[trigger] entries@[j].name@),
            },
        decreases entries.len() - i,
    {
        let ghost before = entries@.take(i as int);
        let ghost after = entries@.take(i + 1);
        assert(forall|j: int| 0 <= j < i ==> before[j] == after[j]);
        if is_combat_log_name(entries[i].name.as_str()) {
            match best {
                Some(b) => {
                    if entries[i].modified > entries[b].modified {
                        best = Some(i);
                    }
                },
                None => {
                    best = Some(i);
                },
            }
        }
        proof {
            match best {
                Some(b) => {
                    assert forall|j: int|
                        0 <= j < after.len() && is_log_name(
                            #[trigger] after[j].name@,
                        ) implies after[j].modified < after[b as int].modified || (
                    after[j].modified == after[b as int].modified && b <= j) by {
                        if j < i {
                            assert(is_log_name(before[j].name@));
                        }
                    }
                },
                None => {},
            }
        }
        i += 1;
    }
    assert(entries@.take(i as int) =~= entries@);
    match best {
        Some(b) => Some(entries[b].path.clone()),
        None => None,
    }
}

} // verus!
