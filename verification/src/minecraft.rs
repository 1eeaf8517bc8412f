//! The instance manifest: the persisted record of one local mod environment
//! (loader, game version, installed mods) and the operations that keep it
//! consistent.

use vstd::prelude::*;

use crate::strutil::{is_ascii_digit, check_ascii_digit};

verus! {

/// One installed mod as recorded in the manifest. `version` names the on-disk
/// artifact file backing this install.
#[derive(Debug)]
pub struct InstalledMod {
    pub name: String,
    pub slug: String,
    pub version: String,
}

/// Mathematical content of an `InstalledMod`.
pub struct InstalledModView {
    pub name: Seq<char>,
    pub slug: Seq<char>,
    pub version: Seq<char>,
}

impl View for InstalledMod {
    type V = InstalledModView;

    open spec fn view(&self) -> InstalledModView {
        InstalledModView { name: self.name@, slug: self.slug@, version: self.version@ }
    }
}

impl Clone for InstalledMod {
    fn clone(&self) -> (r: Self)
        ensures
            r == *self,
    {
        InstalledMod {
            name: self.name.clone(),
            slug: self.slug.clone(),
            version: self.version.clone(),
        }
    }
}

/// The manifest of one local environment. `loader` and `minecraft_version`
/// are set at initialization and immutable thereafter; `mods` is mutated only
/// by install and uninstall.
#[derive(Debug)]
pub struct MinecraftInstance {
    pub loader: String,
    pub minecraft_version: String,
    pub mods: Vec<InstalledMod>,
}

/// Mathematical content of a `MinecraftInstance`.
pub struct MinecraftInstanceView {
    pub loader: Seq<char>,
    pub minecraft_version: Seq<char>,
    pub mods: Seq<InstalledModView>,
}

impl View for MinecraftInstance {
    type V = MinecraftInstanceView;

    open spec fn view(&self) -> MinecraftInstanceView {
        MinecraftInstanceView {
            loader: self.loader@,
            minecraft_version: self.minecraft_version@,
            mods: self.mods@.map_values(|m: InstalledMod| m@),
        }
    }
}

impl Clone for MinecraftInstance {
    fn clone(&self) -> (r: Self)
        ensures
            r@ == self@,
    {
        let mut mods: Vec<InstalledMod> = Vec::new();
        let mut i: usize = 0;
        while i < self.mods.len()
            invariant
                0 <= i <= self.mods.len(),
                mods@ =~= self.mods@.take(i as int),
            decreases self.mods.len() - i,
        {
            mods.push(self.mods[i].clone());
            i = i + 1;
        }
        assert(mods@ =~= self.mods@);
        let r = MinecraftInstance {
            loader: self.loader.clone(),
            minecraft_version: self.minecraft_version.clone(),
            mods,
        };
        assert(r@.mods =~= self@.mods);
        r
    }
}

/// True when some record in `mods` has the identifier `slug`.
pub open spec fn has_mod(mods: Seq<InstalledModView>, slug: Seq<char>) -> bool {
    exists|i: int| 0 <= i < mods.len() && mods[i].slug == slug
}

/// How many records in `mods` have the identifier `slug`.
pub open spec fn count_slug(mods: Seq<InstalledModView>, slug: Seq<char>) -> nat
    decreases mods.len(),
{
    if mods.len() == 0 {
        0
    } else {
        count_slug(mods.drop_last(), slug) + if mods.last().slug == slug {
            1nat
        } else {
            0nat
        }
    }
}

/// The manifest invariant: at most one record per mod identifier.
pub open spec fn slugs_unique(mods: Seq<InstalledModView>) -> bool {
    forall|i: int, j: int|
        0 <= i < j < mods.len() ==> mods[i].slug != mods[j].slug
}

/// What install does to the manifest once a download has succeeded: append
/// the new record, unless one with the same identifier is already present,
/// in which case nothing changes.
pub open spec fn spec_install(
    inst: MinecraftInstanceView,
    entry: InstalledModView,
) -> MinecraftInstanceView {
    if has_mod(inst.mods, entry.slug) {
        inst
    } else {
        MinecraftInstanceView { mods: inst.mods.push(entry), ..inst }
    }
}

/// What uninstall does to the manifest: drop every record with the given
/// identifier (at most one exists under the invariant).
pub open spec fn spec_uninstall(
    inst: MinecraftInstanceView,
    slug: Seq<char>,
) -> MinecraftInstanceView {
    MinecraftInstanceView {
        mods: inst.mods.filter(|m: InstalledModView| m.slug != slug),
        ..inst
    }
}

impl MinecraftInstance {
    /// The manifest invariant: no two records share a slug.
    pub open spec fn wf(&self) -> bool {
        slugs_unique(self@.mods)
    }

    /// An empty manifest: no loader, no game version, no installed mods.
    pub fn new() -> (r: MinecraftInstance)
        ensures
            r@.loader == Seq::<char>::empty(),
            r@.minecraft_version == Seq::<char>::empty(),
            r@.mods == Seq::<InstalledModView>::empty(),
            r.wf(),
    {
        let r = MinecraftInstance {
            loader: String::new(),
            minecraft_version: String::new(),
            mods: Vec::new(),
        };
        assert(r@.mods =~= Seq::<InstalledModView>::empty());
        r
    }

    /// Appends a record. The caller is responsible for the uniqueness check;
    /// this method itself does not deduplicate.
    pub fn add_mod(&mut self, minecraft_mod: InstalledMod)
        ensures
            final(self)@.mods == old(self)@.mods.push(minecraft_mod@),
            final(self)@.loader == old(self)@.loader,
            final(self)@.minecraft_version == old(self)@.minecraft_version,
    {
        self.mods.push(minecraft_mod);
        assert(self@.mods =~= old(self)@.mods.push(minecraft_mod@));
    }

    /// Drops every record whose slug equals `minecraft_mod`'s slug.
    pub fn remove_mod(&mut self, minecraft_mod: &InstalledMod)
        ensures
            final(self)@ == spec_uninstall(old(self)@, minecraft_mod@.slug),
    {
        let ghost pred = |m: InstalledModView| m.slug != minecraft_mod@.slug;
        let mut kept: Vec<InstalledMod> = Vec::new();
        let mut i: usize = 0;
        while i < self.mods.len()
            invariant
                0 <= i <= self.mods.len(),
                kept@.map_values(|m: InstalledMod| m@) =~= old(self)@.mods.take(i as int).filter(
                    pred,
                ),
                self == old(self),
                pred == (|m: InstalledModView| m.slug != minecraft_mod@.slug),
            decreases self.mods.len() - i,
        {
            let ghost prefix = old(self)@.mods.take(i as int);
            let ghost next = old(self)@.mods.take(i + 1 as int);
            proof {
                reveal(Seq::filter);
                assert(next.drop_last() =~= prefix);
                assert(next.last() == old(self)@.mods[i as int]);
            }
            if !self.mods[i].slug.eq(&minecraft_mod.slug) {
                kept.push(self.mods[i].clone());
            }
            assert(kept@.map_values(|m: InstalledMod| m@) =~= next.filter(pred));
            i = i + 1;
        }
        proof {
            assert(old(self)@.mods.take(self.mods@.len() as int) =~= old(self)@.mods);
        }
        self.mods = kept;
        assert(self@ =~= spec_uninstall(old(self)@, minecraft_mod@.slug));
    }

    /// Whether a mod with this identifier is recorded as installed.
    pub fn installed(&self, slug: &String) -> (b: bool)
        ensures
            b == has_mod(self@.mods, slug@),
    {
        let mut i: usize = 0;
        while i < self.mods.len()
            invariant
                0 <= i <= self.mods.len(),
                forall|j: int| 0 <= j < i ==> self@.mods[j].slug != slug@,
            decreases self.mods.len() - i,
        {
            if self.mods[i].slug.eq(slug) {
                assert(self@.mods[i as int].slug == slug@);
                return true;
            }
            i = i + 1;
        }
        false
    }

    /// The position of the record with this identifier, if one exists.
    pub fn find_mod(&self, slug: &String) -> (r: Option<usize>)
        ensures
            match r {
                Some(i) => i < self@.mods.len() && self@.mods[i as int].slug == slug@,
                None => !has_mod(self@.mods, slug@),
            },
    {
        let mut i: usize = 0;
        while i < self.mods.len()
            invariant
                0 <= i <= self.mods.len(),
                forall|j: int| 0 <= j < i ==> self@.mods[j].slug != slug@,
            decreases self.mods.len() - i,
        {
            if self.mods[i].slug.eq(slug) {
                return Some(i);
            }
            i = i + 1;
        }
        None
    }

    /// The manifest mutation of a completed install: appends the new record
    /// unless its slug is already present, and reports whether it appended.
    pub fn install_entry(&mut self, entry: InstalledMod) -> (added: bool)
        ensures
            final(self)@ == spec_install(old(self)@, entry@),
            added == !has_mod(old(self)@.mods, entry@.slug),
            old(self).wf() ==> final(self).wf(),
    {
        proof {
            if slugs_unique(old(self)@.mods) {
                lemma_install_preserves_unique(old(self)@, entry@);
            }
        }
        if self.installed(&entry.slug) {
            false
        } else {
            self.add_mod(entry);
            true
        }
    }
}

/// Installing cannot break the uniqueness invariant: a record is appended
/// only when its slug is absent.
pub proof fn lemma_install_preserves_unique(inst: MinecraftInstanceView, entry: InstalledModView)
    requires
        slugs_unique(inst.mods),
    ensures
        slugs_unique(spec_install(inst, entry).mods),
{
    if !has_mod(inst.mods, entry.slug) {
        let mods = inst.mods.push(entry);
        assert forall|i: int, j: int| 0 <= i < j < mods.len() implies mods[i].slug != mods[j].slug
        by {
            if j == mods.len() - 1 {
                assert(mods[i] == inst.mods[i]);
            }
        }
    }
}

/// A manifest without the slug has zero records for it, and under the
/// uniqueness invariant a manifest with the slug has exactly one.
pub proof fn lemma_count_slug(mods: Seq<InstalledModView>, slug: Seq<char>)
    ensures
        !has_mod(mods, slug) ==> count_slug(mods, slug) == 0,
        slugs_unique(mods) && has_mod(mods, slug) ==> count_slug(mods, slug) == 1,
    decreases mods.len(),
{
    if mods.len() > 0 {
        let prefix = mods.drop_last();
        lemma_count_slug(prefix, slug);
        assert(forall|i: int| 0 <= i < prefix.len() ==> prefix[i] == mods[i]);
        if !has_mod(mods, slug) {
            assert(!has_mod(prefix, slug));
        }
        if slugs_unique(mods) && has_mod(mods, slug) {
            assert(slugs_unique(prefix));
            if mods.last().slug == slug {
                assert(!has_mod(prefix, slug)) by {
                    if has_mod(prefix, slug) {
                        let i = choose|i: int| 0 <= i < prefix.len() && prefix[i].slug == slug;
                        assert(mods[i].slug == mods[mods.len() - 1].slug);
                    }
                }
            } else {
                let i = choose|i: int| 0 <= i < mods.len() && mods[i].slug == slug;
                assert(prefix[i].slug == slug);
                assert(has_mod(prefix, slug));
            }
        }
    }
}

/// Installing a slug twice in sequence leaves the manifest with exactly one
/// record for that slug: the second install finds it present and changes
/// nothing.
pub proof fn lemma_install_twice_one_entry(
    inst: MinecraftInstanceView,
    e1: InstalledModView,
    e2: InstalledModView,
)
    requires
        slugs_unique(inst.mods),
        e1.slug == e2.slug,
    ensures
        count_slug(spec_install(spec_install(inst, e1), e2).mods, e1.slug) == 1,
{
    let once = spec_install(inst, e1);
    lemma_install_preserves_unique(inst, e1);
    if !has_mod(inst.mods, e1.slug) {
        assert(once.mods.last() == e1);
        assert(has_mod(once.mods, e1.slug));
    }
    assert(has_mod(once.mods, e1.slug)) by {
        if has_mod(inst.mods, e1.slug) {
            assert(once == inst);
        }
    }
    assert(spec_install(once, e2) == once);
    lemma_count_slug(once.mods, e1.slug);
}

/// Uninstalling a slug that is not recorded changes nothing.
pub proof fn lemma_uninstall_absent_no_change(inst: MinecraftInstanceView, slug: Seq<char>)
    requires
        !has_mod(inst.mods, slug),
    ensures
        spec_uninstall(inst, slug) == inst,
{
    lemma_filter_absent(inst.mods, slug);
    assert(spec_uninstall(inst, slug).mods =~= inst.mods);
}

/// After an uninstall the slug is gone, and uniqueness is preserved.
pub proof fn lemma_uninstall_removes(inst: MinecraftInstanceView, slug: Seq<char>)
    ensures
        !has_mod(spec_uninstall(inst, slug).mods, slug),
        slugs_unique(inst.mods) ==> slugs_unique(spec_uninstall(inst, slug).mods),
{
    let pred = |m: InstalledModView| m.slug != slug;
    let out = inst.mods.filter(pred);
    broadcast use vstd::seq_lib::group_filter_ensures;

    assert forall|i: int| 0 <= i < out.len() implies out[i].slug != slug by {
        assert(pred(out[i]));
    }
    if slugs_unique(inst.mods) {
        lemma_filter_unique(inst.mods, slug);
    }
}

/// Filtering away an absent slug keeps every record.
proof fn lemma_filter_absent(mods: Seq<InstalledModView>, slug: Seq<char>)
    requires
        !has_mod(mods, slug),
    ensures
        mods.filter(|m: InstalledModView| m.slug != slug) =~= mods,
    decreases mods.len(),
{
    reveal(Seq::filter);
    if mods.len() > 0 {
        let prefix = mods.drop_last();
        assert(forall|i: int| 0 <= i < prefix.len() ==> prefix[i] == mods[i]);
        assert(!has_mod(prefix, slug));
        lemma_filter_absent(prefix, slug);
        assert(mods.last().slug != slug);
    }
}

/// Filtering preserves the uniqueness invariant.
proof fn lemma_filter_unique(mods: Seq<InstalledModView>, slug: Seq<char>)
    requires
        slugs_unique(mods),
    ensures
        slugs_unique(mods.filter(|m: InstalledModView| m.slug != slug)),
    decreases mods.len(),
{
    reveal(Seq::filter);
    let pred = |m: InstalledModView| m.slug != slug;
    if mods.len() > 0 {
        let prefix = mods.drop_last();
        assert(forall|i: int| 0 <= i < prefix.len() ==> prefix[i] == mods[i]);
        assert(slugs_unique(prefix));
        lemma_filter_unique(prefix, slug);
        let out = mods.filter(pred);
        let pout = prefix.filter(pred);
        if pred(mods.last()) {
            assert(out == pout.push(mods.last()));
            lemma_filter_from_original(prefix, pred);
            assert forall|i: int, j: int| 0 <= i < j < out.len() implies out[i].slug
                != out[j].slug by {
                if j == out.len() - 1 {
                    assert(out[i] == pout[i]);
                    assert(prefix.contains(pout[i]));
                    let k = choose|k: int| 0 <= k < prefix.len() && prefix[k] == pout[i];
                    assert(mods[k] == out[i]);
                    assert(mods[k].slug != mods[mods.len() - 1].slug);
                } else {
                    assert(out[i] == pout[i] && out[j] == pout[j]);
                }
            }
        } else {
            assert(out == pout);
        }
    }
}

/// Every record kept by a filter stands somewhere in the original sequence.
proof fn lemma_filter_from_original(
    mods: Seq<InstalledModView>,
    pred: spec_fn(InstalledModView) -> bool,
)
    ensures
        forall|i: int|
            0 <= i < mods.filter(pred).len() ==> mods.contains(#[trigger] mods.filter(pred)[i]),
    decreases mods.len(),
{
    reveal(Seq::filter);
    if mods.len() > 0 {
        let prefix = mods.drop_last();
        lemma_filter_from_original(prefix, pred);
        let out = mods.filter(pred);
        let pout = prefix.filter(pred);
        assert forall|i: int| 0 <= i < out.len() implies mods.contains(#[trigger] out[i]) by {
            if pred(mods.last()) && i == out.len() - 1 {
                assert(mods[mods.len() - 1] == out[i]);
            } else {
                assert(out[i] == pout[i]);
                assert(prefix.contains(pout[i]));
                let k = choose|k: int| 0 <= k < prefix.len() && prefix[k] == pout[i];
                assert(mods[k] == out[i]);
            }
        }
    }
}

/// True exactly for strings of the shape `1.X` or `1.X.Y`, where `X` and `Y`
/// are one or two decimal digits: the accepted game-version pattern.
pub open spec fn spec_valid_minecraft_version(s: Seq<char>) -> bool {
    s.len() >= 3 && s[0] == '1' && s[1] == '.' && (
    (s.len() == 3 && is_ascii_digit(s[2]))
    || (s.len() == 4 && is_ascii_digit(s[2]) && is_ascii_digit(s[3]))
    || (s.len() == 5 && is_ascii_digit(s[2]) && s[3] == '.' && is_ascii_digit(s[4]))
    || (s.len() == 6 && is_ascii_digit(s[2]) && is_ascii_digit(s[3]) && s[4] == '.'
        && is_ascii_digit(s[5]))
    || (s.len() == 6 && is_ascii_digit(s[2]) && s[3] == '.' && is_ascii_digit(s[4])
        && is_ascii_digit(s[5]))
    || (s.len() == 7 && is_ascii_digit(s[2]) && is_ascii_digit(s[3]) && s[4] == '.'
        && is_ascii_digit(s[5]) && is_ascii_digit(s[6])))
}

/// Whether `s` is an accepted game-version string (`1.X` or `1.X.Y`).
pub fn is_valid_minecraft_version(s: &String) -> (b: bool)
    ensures
        b == spec_valid_minecraft_version(s@),
{
    let n = s.as_str().unicode_len();
    if n < 3 || n > 7 {
        return false;
    }
    let c0 = s.as_str().get_char(0);
    let c1 = s.as_str().get_char(1);
    let c2 = s.as_str().get_char(2);
    if !(c0 == '1' && c1 == '.' && check_ascii_digit(c2)) {
        return false;
    }
    if n == 3 {
        return true;
    }
    let c3 = s.as_str().get_char(3);
    if n == 4 {
        return check_ascii_digit(c3);
    }
    let c4 = s.as_str().get_char(4);
    if n == 5 {
        return c3 == '.' && check_ascii_digit(c4);
    }
    let c5 = s.as_str().get_char(5);
    if n == 6 {
        return (check_ascii_digit(c3) && c4 == '.' && check_ascii_digit(c5)) || (c3 == '.'
            && check_ascii_digit(c4) && check_ascii_digit(c5));
    }
    let c6 = s.as_str().get_char(6);
    check_ascii_digit(c3) && c4 == '.' && check_ascii_digit(c5) && check_ascii_digit(c6)
}

/// Lower-cases the ASCII letters of one character.
pub open spec fn spec_to_lower(c: char) -> char {
    if 65 <= c as u32 <= 90 {
        ((c as u32 + 32) as u8) as char
    } else {
        c
    }
}

/// The string with every ASCII upper-case letter lower-cased.
pub open spec fn spec_lowercase(s: Seq<char>) -> Seq<char> {
    s.map_values(|c: char| spec_to_lower(c))
}

/// True when `s`, lower-cased, names one of the supported modloaders.
pub open spec fn spec_valid_loader(s: Seq<char>) -> bool {
    spec_lowercase(s) == "forge"@ || spec_lowercase(s) == "fabric"@ || spec_lowercase(s)
        == "quilt"@
}

/// Lower-cases the ASCII letters of `s`.
pub fn lowercase_ascii(s: &String) -> (r: String)
    ensures
        r@ == spec_lowercase(s@),
{
    let mut r = String::new();
    let n = s.as_str().unicode_len();
    let mut i: usize = 0;
    while i < n
        invariant
            0 <= i <= n,
            n == s@.len(),
            r@ =~= spec_lowercase(s@.take(i as int)),
        decreases n - i,
    {
        let c = s.as_str().get_char(i);
        let u = c as u32;
        let lc: char = if 65 <= u && u <= 90 {
            ((u + 32) as u8) as char
        } else {
            c
        };
        assert(lc == spec_to_lower(s@[i as int]));
        crate::strutil::push_char(&mut r, lc);
        assert(r@ =~= spec_lowercase(s@.take(i + 1 as int)));
        i = i + 1;
    }
    proof {
        assert(s@.take(n as int) =~= s@);
    }
    r
}

/// Whether `s` names a supported modloader, ignoring ASCII case.
pub fn is_valid_loader(s: &String) -> (b: bool)
    ensures
        b == spec_valid_loader(s@),
{
    let low = lowercase_ascii(s);
    let forge: String = String::from_str("forge");
    let fabric: String = String::from_str("fabric");
    let quilt: String = String::from_str("quilt");
    low.eq(&forge) || low.eq(&fabric) || low.eq(&quilt)
}

} // verus!
