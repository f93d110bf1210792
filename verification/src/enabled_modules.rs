//! The enabled-module lists: which modules the bar shows in its leading,
//! centered and trailing placement groups, read from and written to the
//! key/value configuration store.
use vstd::prelude::*;
use configparser::ini::Ini;
use crate::text::{
    join_commas, join_spec, sep_view, split_on, split_spec, trim, trim_all, trim_spec, views,
    lemma_split_join_round_trip,
};

verus! {

#[verifier::external_type_specification]
#[verifier::external_body]
pub struct ExIni(Ini);

/// The flattened contents of a configuration store: what each (section, key)
/// pair holds. Keys that were never set are absent.
pub uninterp spec fn ini_entries(ini: Ini) -> Map<(Seq<char>, Seq<char>), Option<Seq<char>>>;

/// Whether the store was built to let a missing key fall back to the default
/// section. A cascading store answers lookups from outside its flattened
/// contents, so reads are only specified for a non-cascading store.
pub uninterp spec fn ini_cascades(ini: Ini) -> bool;

/// Whether a name passes the store's case folding unchanged: ASCII with no
/// uppercase letters.
pub open spec fn folded_name(s: Seq<char>) -> bool {
    forall|k: int|
        0 <= k < s.len() ==> (#[trigger] s[k]) as int <= 127 && !('A' <= s[k] && s[k] <= 'Z')
}

/// Relies on configparser's Ini::new: a fresh store holds nothing and keeps
/// the default-section fallback off.
#[verifier::external_body]
pub fn ini_new() -> (r: Ini)
    ensures
        forall|k: (Seq<char>, Seq<char>)| !ini_entries(r).contains_key(k),
        !ini_cascades(r),
{
    Ini::new()
}

/// Relies on configparser's Ini::set: stores the value under the section and
/// key, creating the section as needed; an already-lowercase ASCII name is
/// stored as given, and the store's settings are untouched.
#[verifier::external_body]
pub fn ini_set(ini: &mut Ini, section: &str, key: &str, value: Option<String>)
    requires
        folded_name(section@),
        folded_name(key@),
    ensures
        ini_entries(*final(ini)) == ini_entries(*old(ini)).insert(
            (section@, key@),
            match value {
                Some(v) => Some(v@),
                None => None,
            },
        ),
        ini_cascades(*final(ini)) == ini_cascades(*old(ini)),
{
    ini.set(section, key, value);
}

/// Relies on configparser's Ini::get on a non-cascading store: returns a
/// clone of the stored value; `None` both for an absent key and for a key
/// stored without a value.
#[verifier::external_body]
pub fn ini_get(ini: &Ini, section: &str, key: &str) -> (r: Option<String>)
    requires
        folded_name(section@),
        folded_name(key@),
        !ini_cascades(*ini),
    ensures
        match r {
            Some(v) => ini_entries(*ini).contains_key((section@, key@)) && ini_entries(*ini)[
                (section@, key@)] == Some(v@),
            None => !ini_entries(*ini).contains_key((section@, key@)) || ini_entries(*ini)[
                (section@, key@)] is None,
        },
{
    ini.get(section, key)
}

/// The three placement groups of enabled module identifiers, in display
/// order: leading, centered and trailing.
pub struct EnabledModules {
    pub left: Vec<String>,
    pub center: Vec<String>,
    pub right: Vec<String>,
}

/// The built-in leading group.
pub open spec fn default_left() -> Seq<Seq<char>> {
    seq!["hyprland.workspaces"@, "hyprland.window"@]
}

/// The built-in centered group.
pub open spec fn default_center() -> Seq<Seq<char>> {
    seq!["time"@]
}

/// The built-in trailing group.
pub open spec fn default_right() -> Seq<Seq<char>> {
    seq!["media"@, "volume"@, "cpu"@, "memory"@]
}

/// What one placement list denotes in a store: the comma-separated value
/// under the `modules` section split and trimmed, or the built-in default
/// when the key is absent or holds no value.
pub open spec fn list_from(
    entries: Map<(Seq<char>, Seq<char>), Option<Seq<char>>>,
    key: Seq<char>,
    default: Seq<Seq<char>>,
) -> Seq<Seq<char>> {
    if entries.contains_key(("modules"@, key)) && entries[("modules"@, key)] is Some {
        trim_all(split_spec(entries[("modules"@, key)]->0, ','))
    } else {
        default
    }
}

proof fn lemma_names_folded()
    ensures
        folded_name("modules"@),
        folded_name("left"@),
        folded_name("center"@),
        folded_name("right"@),
{
    reveal_strlit("modules");
    reveal_strlit("left");
    reveal_strlit("center");
    reveal_strlit("right");
}

fn push_str(v: &mut Vec<String>, s: &str)
    ensures
        final(v)@.len() == old(v)@.len() + 1,
        views(final(v)@) == views(old(v)@).push(s@),
{
    let ghost prev = views(v@);
    v.push(s.to_owned());
    proof {
        assert(views(v@) =~= prev.push(s@));
    }
}

/// Split a stored list value into its trimmed pieces.
#[verifier::loop_isolation(false)]
fn split_list(value: &str) -> (r: Vec<String>)
    ensures
        views(r@) == trim_all(split_spec(value@, ',')),
{
    let pieces = split_on(value, ',');
    let mut out: Vec<String> = Vec::new();
    let mut i: usize = 0;
    proof {
        assert(views(out@) =~= trim_all(views(pieces@).take(0)));
    }
    while i < pieces.len()
        invariant
            i <= pieces@.len(),
            views(out@) == trim_all(views(pieces@).take(i as int)),
        decreases pieces@.len() - i,
    {
        let ghost prev = views(out@);
        let t = trim(pieces[i].as_str());
        push_str(&mut out, t);
        proof {
            assert(views(pieces@).take(i + 1) =~= views(pieces@).take(i as int).push(
                pieces@[i as int]@,
            ));
            assert(views(out@) =~= trim_all(views(pieces@).take(i + 1)));
        }
        i = i + 1;
    }
    proof {
        assert(views(pieces@).take(pieces@.len() as int) =~= views(pieces@));
    }
    out
}

impl Default for EnabledModules {
    /// The built-in selection of modules.
    fn default() -> (r: EnabledModules)
        ensures
            views(r.left@) == default_left(),
            views(r.center@) == default_center(),
            views(r.right@) == default_right(),
    {
        EnabledModules::standard()
    }
}

impl EnabledModules {
    /// The built-in selection of modules.
    pub fn standard() -> (r: EnabledModules)
        ensures
            views(r.left@) == default_left(),
            views(r.center@) == default_center(),
            views(r.right@) == default_right(),
    {
        let mut left: Vec<String> = Vec::new();
        push_str(&mut left, "hyprland.workspaces");
        push_str(&mut left, "hyprland.window");
        let mut center: Vec<String> = Vec::new();
        push_str(&mut center, "time");
        let mut right: Vec<String> = Vec::new();
        push_str(&mut right, "media");
        push_str(&mut right, "volume");
        push_str(&mut right, "cpu");
        push_str(&mut right, "memory");
        proof {
            assert(views(left@) =~= default_left());
            assert(views(center@) =~= default_center());
            assert(views(right@) =~= default_right());
        }
        EnabledModules { left, center, right }
    }

    /// All enabled module identifiers, in display order over the three
    /// placement groups.
    #[verifier::loop_isolation(false)]
    pub fn get_all(&self) -> (r: Vec<String>)
        ensures
            views(r@) == views(self.left@) + views(self.center@) + views(self.right@),
    {
        let mut out: Vec<String> = Vec::new();
        let mut i: usize = 0;
        while i < self.left.len()
            invariant
                i <= self.left@.len(),
                views(out@) == views(self.left@).take(i as int),
            decreases self.left@.len() - i,
        {
            push_str(&mut out, self.left[i].as_str());
            proof {
                assert(views(self.left@).take(i + 1) =~= views(self.left@).take(i as int).push(
                    self.left@[i as int]@,
                ));
            }
            i = i + 1;
        }
        proof {
            assert(views(self.left@).take(self.left@.len() as int) =~= views(self.left@));
        }
        let mut j: usize = 0;
        while j < self.center.len()
            invariant
                j <= self.center@.len(),
                views(out@) == views(self.left@) + views(self.center@).take(j as int),
            decreases self.center@.len() - j,
        {
            push_str(&mut out, self.center[j].as_str());
            proof {
                assert(views(self.center@).take(j + 1) =~= views(self.center@).take(
                    j as int,
                ).push(self.center@[j as int]@));
                assert(views(self.left@) + views(self.center@).take(j + 1) =~= (views(self.left@)
                    + views(self.center@).take(j as int)).push(self.center@[j as int]@));
            }
            j = j + 1;
        }
        proof {
            assert(views(self.center@).take(self.center@.len() as int) =~= views(self.center@));
        }
        let mut k: usize = 0;
        while k < self.right.len()
            invariant
                k <= self.right@.len(),
                views(out@) == views(self.left@) + views(self.center@) + views(
                    self.right@,
                ).take(k as int),
            decreases self.right@.len() - k,
        {
            push_str(&mut out, self.right[k].as_str());
            proof {
                assert(views(self.right@).take(k + 1) =~= views(self.right@).take(k as int).push(
                    self.right@[k as int]@,
                ));
                assert(views(self.left@) + views(self.center@) + views(self.right@).take(k + 1)
                    =~= (views(self.left@) + views(self.center@) + views(self.right@).take(
                    k as int,
                )).push(self.right@[k as int]@));
            }
            k = k + 1;
        }
        proof {
            assert(views(self.right@).take(self.right@.len() as int) =~= views(self.right@));
        }
        out
    }

    /// Read the three placement lists from the store; an absent list keeps
    /// the built-in default. Reads are specified for a non-cascading store
    /// only, such as `ini_new` yields.
    pub fn from_ini(ini: &Ini) -> (r: EnabledModules)
        requires
            !ini_cascades(*ini),
        ensures
            views(r.left@) == list_from(ini_entries(*ini), "left"@, default_left()),
            views(r.center@) == list_from(ini_entries(*ini), "center"@, default_center()),
            views(r.right@) == list_from(ini_entries(*ini), "right"@, default_right()),
    {
        proof {
            lemma_names_folded();
        }
        let defaults = EnabledModules::standard();
        let left = match ini_get(ini, "modules", "left") {
            Some(v) => split_list(v.as_str()),
            None => defaults.left,
        };
        let center = match ini_get(ini, "modules", "center") {
            Some(v) => split_list(v.as_str()),
            None => defaults.center,
        };
        let right = match ini_get(ini, "modules", "right") {
            Some(v) => split_list(v.as_str()),
            None => defaults.right,
        };
        EnabledModules { left, center, right }
    }

    /// Write the three placement lists to the store, each as one
    /// comma-separated value under the `modules` section.
    pub fn write_to_ini(&self, ini: &mut Ini)
        ensures
            ini_entries(*final(ini)) == ini_entries(*old(ini)).insert(
                ("modules"@, "left"@),
                Some(join_spec(views(self.left@), sep_view())),
            ).insert(
                ("modules"@, "center"@),
                Some(join_spec(views(self.center@), sep_view())),
            ).insert(
                ("modules"@, "right"@),
                Some(join_spec(views(self.right@), sep_view())),
            ),
            ini_cascades(*final(ini)) == ini_cascades(*old(ini)),
    {
        proof {
            lemma_names_folded();
        }
        ini_set(ini, "modules", "left", Some(join_commas(&self.left)));
        ini_set(ini, "modules", "center", Some(join_commas(&self.center)));
        ini_set(ini, "modules", "right", Some(join_commas(&self.right)));
    }
}

/// Round trip: writing a set of enabled-module lists to the configuration
/// store and re-reading them reproduces the same lists, order preserved
/// within each placement group — provided each group is nonempty and each
/// identifier is trimmed and holds no comma, as module identifiers are.
pub proof fn lemma_enabled_modules_round_trip(
    entries: Map<(Seq<char>, Seq<char>), Option<Seq<char>>>,
    left: Seq<Seq<char>>,
    center: Seq<Seq<char>>,
    right: Seq<Seq<char>>,
)
    requires
        left.len() > 0,
        center.len() > 0,
        right.len() > 0,
        forall|k: int|
            0 <= k < left.len() ==> trim_spec(#[trigger] left[k]) == left[k] && !left[k].contains(
                ',',
            ),
        forall|k: int|
            0 <= k < center.len() ==> trim_spec(#[trigger] center[k]) == center[k]
                && !center[k].contains(','),
        forall|k: int|
            0 <= k < right.len() ==> trim_spec(#[trigger] right[k]) == right[k]
                && !right[k].contains(','),
    ensures
        ({
            let written = entries.insert(
                ("modules"@, "left"@),
                Some(join_spec(left, sep_view())),
            ).insert(("modules"@, "center"@), Some(join_spec(center, sep_view()))).insert(
                ("modules"@, "right"@),
                Some(join_spec(right, sep_view())),
            );
            &&& list_from(written, "left"@, default_left()) == left
            &&& list_from(written, "center"@, default_center()) == center
            &&& list_from(written, "right"@, default_right()) == right
        }),
{
    reveal_strlit("left");
    reveal_strlit("center");
    reveal_strlit("right");
    assert("left"@ != "center"@ && "left"@ != "right"@ && "center"@ != "right"@) by {
        assert("left"@.len() == 4);
        assert("center"@.len() == 6);
        assert("right"@.len() == 5);
        assert("center"@[0] == 'c' && "right"@[0] == 'r');
    }
    lemma_split_join_round_trip(left);
    lemma_split_join_round_trip(center);
    lemma_split_join_round_trip(right);
}

} // verus!
