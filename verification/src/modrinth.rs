//! The registry client surface: query construction for the remote mod
//! registry, the shape of search responses, and the version resolver that
//! picks the artifact to download.

use vstd::prelude::*;
use vstd::string::StrSliceExecFns;
use vstd::string::StringExecFns;
use vstd::string::StringSliceAdditionalSpecFns;

use crate::common::{contains_string, ModFile, ModFileView, ModVersion, ModVersionView};
use crate::strutil::{push_char, hex_char_upper, spec_hex_char_upper, spec_decimal, u16_to_string};

verus! {

/// Base address of the remote registry's API.
pub const API_URL: &'static str = "https://api.modrinth.com/v2/";

/// Identifying user-agent string sent with every registry request.
pub const USER_AGENT: &'static str = "User-Agent: Handschrift/mcpm/0.2.0";

/// One page of search results, as the registry reports it.
pub struct SearchResult {
    pub hits: Vec<SearchResultItem>,
}

/// One search hit.
pub struct SearchResultItem {
    pub slug: String,
    pub author: String,
    pub title: String,
    pub description: String,
    pub latest_version: String,
}

impl SearchResultItem {
    /// The one-line report printed for this hit: title, description, latest
    /// version, and the slug to install it by, separated by tabs.
    pub fn display_line(&self) -> (r: String)
        ensures
            r@ == self.title@ + "\t"@ + self.description@ + "\tVersion: "@
                + self.latest_version@ + "\t (slug: "@ + self.slug@ + ")"@,
    {
        let mut out = String::new();
        out.append(self.title.as_str());
        out.append("\t");
        out.append(self.description.as_str());
        out.append("\tVersion: ");
        out.append(self.latest_version.as_str());
        out.append("\t (slug: ");
        out.append(self.slug.as_str());
        out.append(")");
        out
    }
}

// ---------------------------------------------------------------------------
// Query construction.
// ---------------------------------------------------------------------------
/// The bytes left bare by percent-encoding: ASCII letters, digits, and
/// `-` `.` `_` `~`.
pub open spec fn is_unreserved(b: u8) -> bool {
    (48 <= b <= 57) || (65 <= b <= 90) || (97 <= b <= 122) || b == 45 || b == 46 || b == 95 || b
        == 126
}

/// How one byte is written in a percent-encoded query value.
pub open spec fn spec_percent_encode_byte(b: u8) -> Seq<char> {
    if is_unreserved(b) {
        seq![b as char]
    } else {
        seq!['%', spec_hex_char_upper(b as int / 16), spec_hex_char_upper(b as int % 16)]
    }
}

/// A byte sequence percent-encoded for use in a URL.
pub open spec fn spec_percent_encode(bs: Seq<u8>) -> Seq<char>
    decreases bs.len(),
{
    if bs.len() == 0 {
        Seq::empty()
    } else {
        spec_percent_encode_byte(bs[0]) + spec_percent_encode(bs.skip(1))
    }
}

/// Percent-encodes the UTF-8 bytes of `s`.
pub fn percent_encode(s: &String) -> (r: String)
    ensures
        r@ == spec_percent_encode(vstd::utf8::encode_utf8(s@)),
{
    let bs = s.as_str().as_bytes_vec();
    let mut out = String::new();
    let mut i: usize = 0;
    while i < bs.len()
        invariant
            0 <= i <= bs@.len(),
            out@ =~= spec_percent_encode(bs@.take(i as int)),
        decreases bs@.len() - i,
    {
        let b = bs[i];
        if (48 <= b && b <= 57) || (65 <= b && b <= 90) || (97 <= b && b <= 122) || b == 45 || b
            == 46 || b == 95 || b == 126 {
            push_char(&mut out, b as char);
        } else {
            push_char(&mut out, '%');
            push_char(&mut out, hex_char_upper(b / 16));
            push_char(&mut out, hex_char_upper(b % 16));
        }
        proof {
            lemma_percent_encode_take_step(bs@, i as int);
        }
        i = i + 1;
    }
    proof {
        assert(bs@.take(bs@.len() as int) =~= bs@);
    }
    out
}

/// Encoding one more byte extends the encoded prefix by that byte's encoding.
proof fn lemma_percent_encode_take_step(bs: Seq<u8>, i: int)
    requires
        0 <= i < bs.len(),
    ensures
        spec_percent_encode(bs.take(i + 1)) == spec_percent_encode(bs.take(i))
            + spec_percent_encode_byte(bs[i]),
    decreases i,
{
    if i == 0 {
        assert(bs.take(1)[0] == bs[0]);
        assert(bs.take(1).skip(1) =~= Seq::<u8>::empty());
        assert(spec_percent_encode(Seq::<u8>::empty()) =~= Seq::<char>::empty());
        assert(spec_percent_encode(bs.take(1)) =~= spec_percent_encode_byte(bs[0]));
        assert(spec_percent_encode(bs.take(0)) =~= Seq::<char>::empty());
        assert(spec_percent_encode(bs.take(0)) + spec_percent_encode_byte(bs[0])
            =~= spec_percent_encode_byte(bs[0]));
    } else {
        let t = bs.skip(1);
        lemma_percent_encode_take_step(t, i - 1);
        assert(bs.take(i + 1)[0] == bs[0]);
        assert(bs.take(i + 1).skip(1) =~= t.take(i));
        assert(bs.take(i).skip(1) =~= t.take(i - 1));
        assert(bs.take(i)[0] == bs[0]);
        assert(t.take(i - 1 + 1) =~= t.take(i));
        assert(t[i - 1] == bs[i]);
        let head = spec_percent_encode_byte(bs[0]);
        assert(spec_percent_encode(bs.take(i + 1)) == head + spec_percent_encode(t.take(i)));
        assert(spec_percent_encode(bs.take(i)) == head + spec_percent_encode(t.take(i - 1)));
        assert(head + (spec_percent_encode(t.take(i - 1)) + spec_percent_encode_byte(bs[i])) =~= (
        head + spec_percent_encode(t.take(i - 1))) + spec_percent_encode_byte(bs[i]));
    }
}

/// The identifiers after the first, each preceded by the `","` separator that
/// closes one quoted identifier and opens the next.
pub open spec fn spec_join_ids_tail(ids: Seq<Seq<char>>) -> Seq<char>
    decreases ids.len(),
{
    if ids.len() == 0 {
        Seq::empty()
    } else {
        "\",\""@ + ids[0] + spec_join_ids_tail(ids.skip(1))
    }
}

/// A non-empty identifier list written as a JSON-style array of quoted
/// strings: `["a","b"]`.
pub open spec fn spec_ids_array(ids: Seq<Seq<char>>) -> Seq<char> {
    "[\""@ + ids[0] + spec_join_ids_tail(ids.skip(1)) + "\"]"@
}

/// The search endpoint query for a mod name, with a result limit and a
/// project-type facet.
pub fn search_url(name: &String, limit: u16) -> (r: String)
    ensures
        r@ == API_URL@ + "search?query="@ + spec_percent_encode(vstd::utf8::encode_utf8(name@))
            + "&limit="@ + spec_decimal(limit as int) + "&facets=[[\"project_type:mod\"]]"@,
{
    let mut out = String::from_str(API_URL);
    out.append("search?query=");
    let encoded = percent_encode(name);
    out.append(encoded.as_str());
    out.append("&limit=");
    let limit_str = u16_to_string(limit);
    out.append(limit_str.as_str());
    out.append("&facets=[[\"project_type:mod\"]]");
    out
}

/// The project endpoint query for a mod slug.
pub fn project_url(slug: &String) -> (r: String)
    ensures
        r@ == API_URL@ + "project/"@ + spec_percent_encode(vstd::utf8::encode_utf8(slug@)),
{
    let mut out = String::from_str(API_URL);
    out.append("project/");
    let encoded = percent_encode(slug);
    out.append(encoded.as_str());
    out
}

/// The versions endpoint query for a non-empty list of version identifiers.
pub fn versions_url(ids: &Vec<String>) -> (r: String)
    requires
        ids@.len() >= 1,
    ensures
        r@ == API_URL@ + "versions?ids="@ + spec_ids_array(ids.deep_view()),
{
    let ghost views = ids.deep_view();
    let mut out = String::from_str(API_URL);
    out.append("versions?ids=");
    out.append("[\"");
    out.append(ids[0].as_str());
    assert(views[0] == ids@[0]@);
    let mut i: usize = 1;
    while i < ids.len()
        invariant
            1 <= i <= ids@.len(),
            views == ids.deep_view(),
            views.len() == ids@.len(),
            out@ =~= API_URL@ + "versions?ids="@ + "[\""@ + views[0] + spec_join_ids_tail(
                views.skip(1).take(i - 1),
            ),
        decreases ids@.len() - i,
    {
        out.append("\",\"");
        out.append(ids[i].as_str());
        proof {
            lemma_join_ids_tail_step(views.skip(1), i - 1);
            assert(views.skip(1)[i - 1] == views[i as int]);
            assert(views[i as int] == ids@[i as int]@);
        }
        i = i + 1;
    }
    proof {
        assert(views.skip(1).take(views.len() - 1) =~= views.skip(1));
    }
    out.append("\"]");
    assert(out@ =~= API_URL@ + "versions?ids="@ + spec_ids_array(views));
    out
}

/// Joining one more identifier extends the joined tail by a separator and
/// that identifier.
proof fn lemma_join_ids_tail_step(ids: Seq<Seq<char>>, i: int)
    requires
        0 <= i < ids.len(),
    ensures
        spec_join_ids_tail(ids.take(i + 1)) == spec_join_ids_tail(ids.take(i)) + ("\",\""@
            + ids[i]),
    decreases i,
{
    if i == 0 {
        assert(ids.take(1)[0] == ids[0]);
        assert(ids.take(1).skip(1) =~= Seq::<Seq<char>>::empty());
        assert(spec_join_ids_tail(Seq::<Seq<char>>::empty()) =~= Seq::<char>::empty());
        assert(spec_join_ids_tail(ids.take(1)) =~= "\",\""@ + ids[0]);
        assert(spec_join_ids_tail(ids.take(0)) =~= Seq::<char>::empty());
        assert(spec_join_ids_tail(ids.take(0)) + ("\",\""@ + ids[0]) =~= "\",\""@ + ids[0]);
    } else {
        let t = ids.skip(1);
        lemma_join_ids_tail_step(t, i - 1);
        assert(ids.take(i + 1)[0] == ids[0]);
        assert(ids.take(i + 1).skip(1) =~= t.take(i));
        assert(ids.take(i).skip(1) =~= t.take(i - 1));
        assert(ids.take(i)[0] == ids[0]);
        assert(t[i - 1] == ids[i]);
        let head = "\",\""@ + ids[0];
        assert(spec_join_ids_tail(ids.take(i + 1)) == head + spec_join_ids_tail(t.take(i)));
        assert(spec_join_ids_tail(ids.take(i)) == head + spec_join_ids_tail(t.take(i - 1)));
        assert(head + (spec_join_ids_tail(t.take(i - 1)) + ("\",\""@ + ids[i])) =~= (head
            + spec_join_ids_tail(t.take(i - 1))) + ("\",\""@ + ids[i]));
    }
}

// ---------------------------------------------------------------------------
// The version resolver.
// ---------------------------------------------------------------------------
/// Whether a published version is compatible with an environment: its
/// loaders include the environment's loader and its game versions include
/// the environment's game version.
pub open spec fn version_matches(
    v: ModVersionView,
    loader: Seq<char>,
    game_version: Seq<char>,
) -> bool {
    contains_string(v.loaders, loader) && contains_string(v.game_versions, game_version)
}

/// No version in `vs` is compatible with the environment.
pub open spec fn no_match(vs: Seq<ModVersionView>, loader: Seq<char>, game_version: Seq<char>) -> bool {
    forall|i: int| 0 <= i < vs.len() ==> !version_matches(vs[i], loader, game_version)
}

/// `vs[i]` is compatible and no later version is: the registry reports
/// versions oldest first, so this is the newest compatible one.
pub open spec fn is_last_match(
    vs: Seq<ModVersionView>,
    i: int,
    loader: Seq<char>,
    game_version: Seq<char>,
) -> bool {
    &&& 0 <= i < vs.len()
    &&& version_matches(vs[i], loader, game_version)
    &&& forall|j: int| i < j < vs.len() ==> !version_matches(vs[j], loader, game_version)
}

/// `files[f]` is the first file flagged primary.
pub open spec fn is_first_primary(files: Seq<ModFileView>, f: int) -> bool {
    &&& 0 <= f < files.len()
    &&& files[f].primary
    &&& forall|g: int| 0 <= g < f ==> !files[g].primary
}

/// No file of the version is flagged primary.
pub open spec fn no_primary(files: Seq<ModFileView>) -> bool {
    forall|f: int| 0 <= f < files.len() ==> !files[f].primary
}

/// What resolution decides: no compatible version exists; the newest
/// compatible version has no primary file (registry data inconsistency); or
/// the newest compatible version and its primary file were found.
pub enum ResolveOutcome {
    NoMatch,
    NoPrimaryFile { version: usize },
    Resolved { version: usize, file: usize },
}

/// Whether this version is compatible with the environment.
pub fn check_version_matches(v: &ModVersion, loader: &String, game_version: &String) -> (b: bool)
    ensures
        b == version_matches(v@, loader@, game_version@),
{
    let in_loaders = crate::common::vec_contains_string(&v.loaders, loader);
    let in_games = crate::common::vec_contains_string(&v.game_versions, game_version);
    in_loaders && in_games
}

/// Selects the newest version compatible with the environment, and its
/// primary file. Versions are scanned in registry response order, which is
/// trusted to be oldest first; the last compatible entry wins, and within it
/// the first file flagged primary.
pub fn resolve(versions: &Vec<ModVersion>, loader: &String, game_version: &String) -> (r:
    ResolveOutcome)
    ensures
        ({
            let vs = versions@.map_values(|v: ModVersion| v@);
            match r {
                ResolveOutcome::NoMatch => no_match(vs, loader@, game_version@),
                ResolveOutcome::NoPrimaryFile { version } => is_last_match(
                    vs,
                    version as int,
                    loader@,
                    game_version@,
                ) && no_primary(vs[version as int].files),
                ResolveOutcome::Resolved { version, file } => is_last_match(
                    vs,
                    version as int,
                    loader@,
                    game_version@,
                ) && is_first_primary(vs[version as int].files, file as int),
            }
        }),
{
    let ghost vs = versions@.map_values(|v: ModVersion| v@);
    let mut best: Option<usize> = None;
    let mut i: usize = 0;
    while i < versions.len()
        invariant
            0 <= i <= versions@.len(),
            vs == versions@.map_values(|v: ModVersion| v@),
            vs.len() == versions@.len(),
            match best {
                Some(b) => b < i && is_last_match(vs.take(i as int), b as int, loader@, game_version@),
                None => no_match(vs.take(i as int), loader@, game_version@),
            },
        decreases versions@.len() - i,
    {
        assert(vs.take(i as int + 1)[i as int] == vs[i as int]);
        assert(forall|j: int| 0 <= j < i ==> vs.take(i as int + 1)[j] == vs.take(i as int)[j]);
        if check_version_matches(&versions[i], loader, game_version) {
            best = Some(i);
        }
        i = i + 1;
    }
    proof {
        assert(vs.take(versions@.len() as int) =~= vs);
    }
    let vi = match best {
        Some(b) => b,
        None => {
            return ResolveOutcome::NoMatch;
        },
    };
    let files = &versions[vi].files;
    assert(vs[vi as int].files == files@.map_values(|f: ModFile| f@));
    let mut f: usize = 0;
    while f < files.len()
        invariant
            0 <= f <= files@.len(),
            vs[vi as int].files == files@.map_values(|mf: ModFile| mf@),
            vs[vi as int].files.len() == files@.len(),
            vi < vs.len(),
            is_last_match(vs, vi as int, loader@, game_version@),
            vs == versions@.map_values(|v: ModVersion| v@),
            forall|g: int| 0 <= g < f ==> !vs[vi as int].files[g].primary,
        decreases files@.len() - f,
    {
        if files[f].primary {
            assert(vs[vi as int].files[f as int].primary);
            return ResolveOutcome::Resolved { version: vi, file: f };
        }
        f = f + 1;
    }
    ResolveOutcome::NoPrimaryFile { version: vi }
}

} // verus!
