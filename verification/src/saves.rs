//! Where a game keeps what it keeps between runs, where its save slots are,
//! and what a slot that will not read back is refused as.
//!
//! Reading the environment and the filesystem is the program's; which
//! directory those answers come to, and which file a slot is, is decided here.

use vstd::prelude::*;

use crate::paths::{is_absolute, join, spec_absolute, spec_join};
use crate::text::{digit_char, push_decimal, spec_decimal, spec_hex64, push_hex64};
use crate::units::SaveSlot;

verus! {

/// The leaf a game's slots sit in, under its own directory.
pub const SAVES: &'static str = "saves";

/// What one slot's file is called after its number.
pub const EXTENSION: &'static str = "corvid";

/// The second extension a slot's bytes wear while they are being written.
pub const PENDING: &'static str = "new";

/// The optional text a path may or may not be.
pub open spec fn opt_view(o: Option<String>) -> Option<Seq<char>> {
    match o {
        Some(s) => Some(s@),
        None => None,
    }
}

/// Where a user's own data lives, per the XDG Base Directory specification:
/// an absolute `XDG_DATA_HOME`, or else `.local/share` under an absolute
/// `HOME`, or else nowhere. A relative value is ignored, as the specification
/// says it is to be.
pub open spec fn spec_data_home(xdg: Option<Seq<char>>, home: Option<Seq<char>>) -> Option<Seq<char>> {
    if xdg is Some && spec_absolute(xdg->0) {
        xdg
    } else if home is Some && spec_absolute(home->0) {
        Some(spec_join(spec_join(home->0, ".local"@), "share"@))
    } else {
        None
    }
}

/// The directory a game keeps everything in: the one the operator named if
/// they named one, else the game's name under the data home, else the game's
/// name beside wherever the game was started.
pub open spec fn spec_resolve(home: Option<Seq<char>>, named: Option<Seq<char>>, name: Seq<char>) -> Seq<char> {
    match named {
        Some(dir) => dir,
        None => match home {
            Some(home) => spec_join(home, name),
            None => name,
        },
    }
}

/// Where a user's own data lives, given `XDG_DATA_HOME` and `HOME` as the
/// environment has them.
pub fn data_home(xdg: Option<String>, home: Option<String>) -> (r: Option<String>)
    ensures
        opt_view(r) == spec_data_home(opt_view(xdg), opt_view(home)),
{
    if let Some(set) = xdg {
        if is_absolute(set.as_str()) {
            return Some(set);
        }
    }
    match home {
        Some(home) => {
            if is_absolute(home.as_str()) {
                let local = join(home.as_str(), ".local");
                Some(join(local.as_str(), "share"))
            } else {
                None
            }
        },
        None => None,
    }
}

/// Where a user's own data lives on a platform that also names an application
/// data directory: an absolute `XDG_DATA_HOME` first, then `appdata`, then
/// `.local/share` under an absolute `HOME`. A shell that sets both means the
/// XDG one for its own programs, so that is read first.
pub open spec fn spec_data_home_with(
    xdg: Option<Seq<char>>,
    appdata: Option<Seq<char>>,
    home: Option<Seq<char>>,
) -> Option<Seq<char>> {
    if xdg is Some && spec_absolute(xdg->0) {
        xdg
    } else if appdata is Some {
        appdata
    } else {
        spec_data_home(None, home)
    }
}

/// Where a user's own data lives, given `XDG_DATA_HOME`, the platform's
/// application data directory and `HOME` as the environment has them.
///
/// `appdata` is `%APPDATA%` where the platform reads one and it is an absolute
/// path by that platform's own rules, which the program judges; elsewhere it
/// is nothing, and this is [`data_home`].
pub fn data_home_with(xdg: Option<String>, appdata: Option<String>, home: Option<String>) -> (r: Option<String>)
    ensures
        opt_view(r) == spec_data_home_with(opt_view(xdg), opt_view(appdata), opt_view(home)),
        appdata is None ==> opt_view(r) == spec_data_home(opt_view(xdg), opt_view(home)),
{
    if let Some(set) = xdg {
        if is_absolute(set.as_str()) {
            return Some(set);
        }
    }
    match appdata {
        Some(dir) => Some(dir),
        None => data_home(None, home),
    }
}

/// Where a user's data lives, in order: an absolute `XDG_DATA_HOME`, then the
/// platform's application data directory, then `.local/share` under an
/// absolute `HOME`, then nowhere. With no application data directory it is
/// exactly the XDG answer.
pub proof fn lemma_data_home_order(xdg: Option<Seq<char>>, appdata: Option<Seq<char>>, home: Option<Seq<char>>)
    ensures
        appdata is None ==> spec_data_home_with(xdg, appdata, home) == spec_data_home(xdg, home),
        (xdg is Some && spec_absolute(xdg->0)) ==> spec_data_home_with(xdg, appdata, home) == xdg,
        !(xdg is Some && spec_absolute(xdg->0)) && appdata is Some
            ==> spec_data_home_with(xdg, appdata, home) == appdata,
        !(xdg is Some && spec_absolute(xdg->0)) && appdata is None && home is Some && spec_absolute(home->0)
            ==> spec_data_home_with(xdg, appdata, home) == Some(spec_join(spec_join(home->0, ".local"@), "share"@)),
        !(xdg is Some && spec_absolute(xdg->0)) && appdata is None && !(home is Some && spec_absolute(home->0))
            ==> spec_data_home_with(xdg, appdata, home) is None,
{
}

/// [`root`] with the data home handed to it rather than read.
pub fn resolve(home: Option<String>, named: Option<String>, name: &str) -> (r: String)
    ensures
        r@ == spec_resolve(opt_view(home), opt_view(named), name@),
{
    match named {
        Some(dir) => dir,
        None => match home {
            Some(home) => join(home.as_str(), name),
            None => String::from_str(name),
        },
    }
}

/// Everything one game keeps between runs, in one directory: `--state DIR` if
/// the operator named one, and `NAME` under the data home otherwise, given the
/// environment's `XDG_DATA_HOME` and `HOME`.
pub fn root(xdg: Option<String>, home: Option<String>, named: Option<String>, name: &str) -> (r: String)
    ensures
        r@ == spec_resolve(spec_data_home(opt_view(xdg), opt_view(home)), opt_view(named), name@),
{
    resolve(data_home(xdg, home), named, name)
}

/// The file name of a slot, and of the file it is assembled in first.
pub open spec fn slot_file(slot: SaveSlot) -> Seq<char> {
    spec_decimal(slot.0 as nat) + "."@ + EXTENSION@
}

/// Where a run's save slots are.
#[derive(Clone, Debug, PartialEq, Eq)]
pub struct Saves {
    /// The directory the slot files sit in.
    root: String,
}

impl View for Saves {
    type V = Seq<char>;

    closed spec fn view(&self) -> Seq<char> {
        self.root@
    }
}

impl Saves {
    /// The `saves/` directory under a game's root.
    pub fn under(root: &str) -> (r: Saves)
        ensures
            r@ == spec_join(root@, SAVES@),
    {
        Saves { root: join(root, SAVES) }
    }

    /// The directory the slot files sit in.
    pub fn directory(&self) -> (r: String)
        ensures
            r@ == self@,
    {
        self.root.clone()
    }

    /// Where slot `slot` is written: its number and `.corvid`.
    pub fn path(&self, slot: SaveSlot) -> (r: String)
        ensures
            r@ == spec_join(self@, slot_file(slot)),
    {
        let mut file = String::new();
        push_decimal(&mut file, slot.0 as u64);
        file.append(".");
        file.append(EXTENSION);
        assert(file@ =~= slot_file(slot));
        join(self.root.as_str(), file.as_str())
    }

    /// Where slot `slot`'s bytes are assembled before they become the slot: a
    /// second extension, so that it can never name the same file as the slot.
    pub fn pending(&self, slot: SaveSlot) -> (r: String)
        ensures
            r@ == spec_join(self@, slot_file(slot) + "."@ + PENDING@),
    {
        let mut file = String::new();
        push_decimal(&mut file, slot.0 as u64);
        file.append(".");
        file.append(EXTENSION);
        file.append(".");
        file.append(PENDING);
        assert(file@ =~= slot_file(slot) + "."@ + PENDING@);
        join(self.root.as_str(), file.as_str())
    }
}

/// A slot's bytes are not a save this build can play.
#[derive(Clone, Debug, PartialEq, Eq)]
#[non_exhaustive]
pub enum NotASave {
    /// The file is not a save, or the state inside it is not this game's.
    Bytes(String),
    /// The session inside it is not one this build can replay.
    Session(String),
    /// The session inside it does not reach its own last tick.
    Unreachable(String),
    /// Replaying the session produced a different state than the one saved
    /// beside it: the two builds describe their types the same way and one of
    /// them computes something else out of them.
    Diverged {
        /// The digest of the state the save recorded.
        recorded: u64,
        /// The digest of the state replaying its log arrives at.
        replayed: u64,
    },
}

/// What a replayed save is checked against: the state it recorded beside its
/// log. Equal digests pass; unequal ones are a save this build cannot play.
pub fn check_replay(recorded: u64, replayed: u64) -> (r: Result<(), NotASave>)
    ensures
        recorded == replayed ==> r is Ok,
        recorded != replayed ==> r == Err::<(), NotASave>(NotASave::Diverged { recorded, replayed }),
{
    if recorded != replayed {
        return Err(NotASave::Diverged { recorded, replayed });
    }
    Ok(())
}

/// What [`NotASave::message`] says for each case.
pub open spec fn spec_not_a_save(why: NotASave) -> Seq<char> {
    match why {
        NotASave::Bytes(why) => "these are not the bytes of a save: "@ + why@,
        NotASave::Session(why) => why@,
        NotASave::Unreachable(why) => "the session in this save does not reach its own last tick: "@
            + why@,
        NotASave::Diverged { recorded, replayed } => "this save records the state at its last tick as "@
            + spec_hex64(recorded) + DIVERGED@ + spec_hex64(replayed) + COMPUTED@,
    }
}

/// The middle of [`NotASave::Diverged`]'s sentence.
pub const DIVERGED: &'static str = " and replaying its own log arrives at ";

/// The end of [`NotASave::Diverged`]'s sentence.
pub const COMPUTED: &'static str = ": the build that wrote it describes its types exactly as this one does and computes something else out of them";

impl NotASave {
    /// The sentence a reader is given for this refusal.
    pub fn message(&self) -> (r: String)
        ensures
            r@ == spec_not_a_save(*self),
    {
        match self {
            NotASave::Bytes(why) => {
                let mut out = String::from_str("these are not the bytes of a save: ");
                out.append(why.as_str());
                out
            },
            NotASave::Session(why) => why.clone(),
            NotASave::Unreachable(why) => {
                let mut out = String::from_str(
                    "the session in this save does not reach its own last tick: ",
                );
                out.append(why.as_str());
                out
            },
            NotASave::Diverged { recorded, replayed } => {
                let mut out = String::from_str("this save records the state at its last tick as ");
                push_hex64(&mut out, *recorded);
                out.append(DIVERGED);
                push_hex64(&mut out, *replayed);
                out.append(COMPUTED);
                out
            },
        }
    }
}

/// A number's decimal digits are never empty and never start at the root.
proof fn lemma_decimal_is_a_leaf(n: nat)
    ensures
        spec_decimal(n).len() > 0,
        spec_decimal(n)[0] != '/',
    decreases n,
{
    if n >= 10 {
        lemma_decimal_is_a_leaf(n / 10);
    }
}

/// Two numbers with the same decimal digits are the same number.
proof fn lemma_decimal_is_injective(n: nat, m: nat)
    requires
        spec_decimal(n) == spec_decimal(m),
    ensures
        n == m,
    decreases n,
{
    let dn = spec_decimal(n);
    let dm = spec_decimal(m);
    if n >= 10 {
        lemma_decimal_is_a_leaf(n / 10);
        assert(dn.len() >= 2);
    } else {
        assert(dn.len() == 1);
    }
    if m >= 10 {
        lemma_decimal_is_a_leaf(m / 10);
        assert(dm.len() >= 2);
    } else {
        assert(dm.len() == 1);
    }
    if n < 10 && m < 10 {
        assert(dn[0] == digit_char(n as int) && dm[0] == digit_char(m as int));
    } else if n >= 10 && m >= 10 {
        assert(dn.last() == dm.last());
        assert(digit_char((n % 10) as int) == digit_char((m % 10) as int));
        assert(n % 10 == m % 10);
        assert(dn.drop_last() =~= spec_decimal(n / 10));
        assert(dm.drop_last() =~= spec_decimal(m / 10));
        lemma_decimal_is_injective(n / 10, m / 10);
        assert(n == 10 * (n / 10) + n % 10);
        assert(m == 10 * (m / 10) + m % 10);
    }
}

/// A leaf joined under one base is that base's only way to name it.
proof fn lemma_join_is_injective(base: Seq<char>, a: Seq<char>, b: Seq<char>)
    requires
        !spec_absolute(a),
        !spec_absolute(b),
        spec_join(base, a) == spec_join(base, b),
    ensures
        a == b,
{
    let p = if base.len() == 0 {
        Seq::<char>::empty()
    } else if base.last() == '/' {
        base
    } else {
        base + seq!['/']
    };
    assert(spec_join(base, a) =~= p + a);
    assert(spec_join(base, b) =~= p + b);
    assert((p + a).skip(p.len() as int) =~= a);
    assert((p + b).skip(p.len() as int) =~= b);
}

/// Whatever a leaf is joined under, the path ends as the leaf does.
proof fn lemma_join_ends_with_leaf(base: Seq<char>, leaf: Seq<char>)
    requires
        leaf.len() > 0,
    ensures
        spec_join(base, leaf).last() == leaf.last(),
{
}

/// Two slots are two files: saving into one never writes over another.
pub proof fn lemma_slots_are_distinct(root: Seq<char>, a: SaveSlot, b: SaveSlot)
    requires
        a != b,
    ensures
        spec_join(root, slot_file(a)) != spec_join(root, slot_file(b)),
{
    lemma_decimal_is_a_leaf(a.0 as nat);
    lemma_decimal_is_a_leaf(b.0 as nat);
    let fa = slot_file(a);
    let fb = slot_file(b);
    let da = spec_decimal(a.0 as nat);
    let db = spec_decimal(b.0 as nat);
    assert(fa[0] == da[0]);
    assert(fb[0] == db[0]);
    if spec_join(root, fa) == spec_join(root, fb) {
        lemma_join_is_injective(root, fa, fb);
        let tail = "."@ + EXTENSION@;
        assert(fa =~= da + tail);
        assert(fb =~= db + tail);
        assert(da.len() == db.len());
        assert(fa.subrange(0, da.len() as int) =~= da);
        assert(fb.subrange(0, db.len() as int) =~= db);
        lemma_decimal_is_injective(a.0 as nat, b.0 as nat);
    }
}

/// The file a save is assembled in is never a slot, so a half-written save is
/// never mistaken for one.
pub proof fn lemma_pending_is_never_a_slot(root: Seq<char>, a: SaveSlot, b: SaveSlot)
    ensures
        spec_join(root, slot_file(a)) != spec_join(root, slot_file(b) + "."@ + PENDING@),
{
    reveal_strlit("corvid");
    reveal_strlit("new");
    reveal_strlit(".");
    let fa = slot_file(a);
    let fb = slot_file(b) + "."@ + PENDING@;
    assert(fa.last() == 'd');
    assert(fb.last() == 'w');
    lemma_join_ends_with_leaf(root, fa);
    lemma_join_ends_with_leaf(root, fb);
}

} // verus!
