//! The game's data files: which archived version to take for a save, and in
//! which pack a language's files are.

use vstd::prelude::*;
use crate::country_code::CountryCode;
use crate::country_code::cc_code;
use crate::game_version::{spec_version_text, GameVersion};
use crate::text::ascii_chars;

verus! {

/// Where the game's data is kept: a base address and, for each region, the
/// versions there are, each with the path of its archive. No region is
/// listed twice, nor a version twice in a region's list (`metadata_wf`):
/// `new` and `insert_version` keep it so, and where it holds the list and
/// path found for a region and version are the only ones listed
/// (`lemma_region_listed`, `lemma_version_listed`).
#[derive(Debug, Clone)]
pub struct GameRepoMetadata {
    pub base_url: String,
    pub versions: Vec<(CountryCode, Vec<(GameVersion, String)>)>,
}

/// `r` is the version to take for `gv` among `versions`: the oldest one that
/// is not older than `gv`, or the newest where all are older.
pub open spec fn is_closest(versions: Seq<GameVersion>, gv: GameVersion, r: GameVersion) -> bool {
    &&& exists|i: int| 0 <= i < versions.len() && versions[i] == r
    &&& if exists|i: int| 0 <= i < versions.len() && versions[i].0 >= gv.0 {
        &&& r.0 >= gv.0
        &&& forall|i: int| 0 <= i < versions.len() && versions[i].0 >= gv.0 ==> r.0 <= versions[i].0
    } else {
        forall|i: int| 0 <= i < versions.len() ==> versions[i].0 <= r.0
    }
}

/// At most one version is the one to take.
pub proof fn lemma_closest_unique(versions: Seq<GameVersion>, gv: GameVersion, a: GameVersion, b: GameVersion)
    requires
        is_closest(versions, gv, a),
        is_closest(versions, gv, b),
    ensures
        a == b,
{
    let ia = choose|i: int| 0 <= i < versions.len() && versions[i] == a;
    let ib = choose|i: int| 0 <= i < versions.len() && versions[i] == b;
    if exists|i: int| 0 <= i < versions.len() && versions[i].0 >= gv.0 {
        assert(a.0 <= versions[ib].0);
        assert(b.0 <= versions[ia].0);
    } else {
        assert(a.0 <= versions[ib].0 || true);
        assert(versions[ia].0 <= b.0);
        assert(versions[ib].0 <= a.0);
    }
}

/// A listed version is the one taken for itself.
pub proof fn lemma_closest_listed(versions: Seq<GameVersion>, gv: GameVersion)
    requires
        versions.contains(gv),
    ensures
        is_closest(versions, gv, gv),
{
    let i = choose|i: int| 0 <= i < versions.len() && versions[i] == gv;
    assert(versions[i].0 >= gv.0);
}

/// The versions of a region's list.
pub open spec fn version_keys(list: Seq<(GameVersion, String)>) -> Seq<GameVersion> {
    list.map_values(|e: (GameVersion, String)| e.0)
}

/// The version list of the first entry for a region.
pub open spec fn region_versions(v: Seq<(CountryCode, Vec<(GameVersion, String)>)>, cc: CountryCode) -> Option<Seq<(GameVersion, String)>>
    decreases v.len(),
{
    if v.len() == 0 {
        None
    } else if v[0].0 == cc {
        Some(v[0].1@)
    } else {
        region_versions(v.drop_first(), cc)
    }
}

/// The path of the first entry for a version.
pub open spec fn version_path(list: Seq<(GameVersion, String)>, gv: GameVersion) -> Option<Seq<char>>
    decreases list.len(),
{
    if list.len() == 0 {
        None
    } else if list[0].0 == gv {
        Some(list[0].1@)
    } else {
        version_path(list.drop_first(), gv)
    }
}

impl GameRepoMetadata {
    /// The version to take for `game_version` among `versions` (see
    /// `is_closest`); `None` where there are none.
    pub fn find_closest_gv(versions: Vec<GameVersion>, game_version: GameVersion) -> (res: Option<GameVersion>)
        ensures
            versions@.len() == 0 <==> res is None,
            res matches Some(r) ==> is_closest(versions@, game_version, r),
    {
        if versions.len() == 0 {
            return None;
        }
        let mut above: Option<GameVersion> = None;
        let mut newest: GameVersion = versions[0];
        let mut i: usize = 0;
        while i < versions.len()
            invariant
                versions@.len() > 0,
                i <= versions@.len(),
                exists|j: int| 0 <= j < versions@.len() && versions@[j] == newest,
                forall|j: int| 0 <= j < i ==> versions@[j].0 <= newest.0,
                match above {
                    Some(a) => {
                        &&& exists|j: int| 0 <= j < i && versions@[j] == a
                        &&& a.0 >= game_version.0
                        &&& forall|j: int| 0 <= j < i && versions@[j].0 >= game_version.0 ==> a.0 <= versions@[j].0
                    },
                    None => forall|j: int| 0 <= j < i ==> versions@[j].0 < game_version.0,
                },
            decreases versions@.len() - i,
        {
            let v = versions[i];
            if v.0 > newest.0 {
                newest = v;
            }
            if v.0 >= game_version.0 {
                match above {
                    Some(a) => {
                        if v.0 < a.0 {
                            above = Some(v);
                        }
                    },
                    None => {
                        above = Some(v);
                    },
                }
            }
            i = i + 1;
        }
        match above {
            Some(a) => Some(a),
            None => Some(newest),
        }
    }

    /// The version to take for a save of `country_code` at `game_version`,
    /// with the path of its archive: the version itself where it is listed,
    /// else the closest one. `None` where the region has no versions.
    pub fn find_closest_meta_gv(&self, country_code: CountryCode, game_version: GameVersion) -> (res: Option<(GameVersion, &str)>)
        ensures
            match region_versions(self.versions@, country_code) {
                None => res is None,
                Some(list) => {
                    &&& (list.len() == 0 <==> res is None)
                    &&& res matches Some((g, p)) ==> {
                        &&& is_closest(version_keys(list), game_version, g)
                        &&& version_path(list, g) == Some(p@)
                    }
                },
            },
    {
        let mut r: usize = 0;
        let ghost all = self.versions@;
        assert(all.skip(0) =~= all);
        while r < self.versions.len()
            invariant
                all == self.versions@,
                r <= all.len(),
                region_versions(all, country_code) == region_versions(all.skip(r as int), country_code),
            decreases all.len() - r,
        {
            assert(all.skip(r as int).drop_first() =~= all.skip(r + 1));
            assert(all.skip(r as int)[0] == all[r as int]);
            if self.versions[r].0 == country_code {
                let list = &self.versions[r].1;
                assert(region_versions(all, country_code) == Some(list@));
                let mut keys: Vec<GameVersion> = Vec::new();
                let mut k: usize = 0;
                while k < list.len()
                    invariant
                        region_versions(all, country_code) == Some(list@),
                        all == self.versions@,
                        k <= list@.len(),
                        keys@ == version_keys(list@).take(k as int),
                    decreases list@.len() - k,
                {
                    keys.push(list[k].0);
                    k = k + 1;
                    assert(keys@ =~= version_keys(list@).take(k as int));
                }
                assert(keys@ =~= version_keys(list@));
                let chosen = match Self::find_closest_gv(keys, game_version) {
                    Some(g) => g,
                    None => {
                        return None;
                    },
                };
                let ghost l = list@;
                assert(l.skip(0) =~= l);
                let mut j: usize = 0;
                while j < list.len()
                    invariant
                        l == list@,
                        region_versions(all, country_code) == Some(l),
                        all == self.versions@,
                        is_closest(version_keys(l), game_version, chosen),
                        j <= l.len(),
                        version_path(l, chosen) == version_path(l.skip(j as int), chosen),
                        exists|x: int| j <= x < l.len() && l[x].0 == chosen,
                    decreases l.len() - j,
                {
                    assert(l.skip(j as int).drop_first() =~= l.skip(j + 1));
                    assert(l.skip(j as int)[0] == l[j as int]);
                    if list[j].0 == chosen {
                        return Some((chosen, list[j].1.as_str()));
                    }
                    j = j + 1;
                }
                return None;
            }
            r = r + 1;
        }
        None
    }
}

/// The pack that holds a language's version of a pack: the pack itself for
/// the game's own languages, else the pack's name, an underscore and the
/// language.
pub open spec fn lang_pack(base_pack_name: Seq<char>, lang: Seq<char>) -> Seq<char> {
    if lang == "en"@ || lang == "ja"@ || lang == "jp"@ || lang == "kr"@ || lang == "ko"@ || lang == "tw"@ {
        base_pack_name
    } else {
        base_pack_name + "_"@ + lang
    }
}

pub(crate) fn str_eq(a: &str, b: &str) -> (r: bool)
    ensures
        r == (a@ == b@),
{
    let n = a.unicode_len();
    if n != b.unicode_len() {
        return false;
    }
    let mut i: usize = 0;
    while i < n
        invariant
            n == a@.len(),
            n == b@.len(),
            i <= n,
            forall|j: int| 0 <= j < i ==> a@[j] == b@[j],
        decreases n - i,
    {
        if a.get_char(i) != b.get_char(i) {
            return false;
        }
        i = i + 1;
    }
    assert(a@ =~= b@);
    true
}

/// The name of the pack that holds `lang`'s files of `base_pack_name`.
pub fn lang_pack_name(base_pack_name: &str, lang: &str) -> (s: String)
    ensures
        s@ == lang_pack(base_pack_name@, lang@),
{
    if str_eq(lang, "en") || str_eq(lang, "ja") || str_eq(lang, "jp") || str_eq(lang, "kr") || str_eq(lang, "ko")
        || str_eq(lang, "tw") {
        base_pack_name.to_owned()
    } else {
        let mut s = base_pack_name.to_owned();
        s.append("_");
        s.append(lang);
        s
    }
}


/* The lists as maps */

/// No version is listed twice in a region's list.
pub open spec fn distinct_versions(list: Seq<(GameVersion, String)>) -> bool {
    forall|a: int, b: int| 0 <= a < b < list.len() ==> list[a].0 != list[b].0
}

/// No region is listed twice, and no version twice within a region's list:
/// the lists stand for a map from region to a map from version to path.
pub open spec fn metadata_wf(v: Seq<(CountryCode, Vec<(GameVersion, String)>)>) -> bool {
    &&& forall|a: int, b: int| 0 <= a < b < v.len() ==> v[a].0 != v[b].0
    &&& forall|a: int| 0 <= a < v.len() ==> distinct_versions(#[trigger] v[a].1@)
}

/// The path listed for `gv` in `cc`'s list, if any.
pub open spec fn listed_path(v: Seq<(CountryCode, Vec<(GameVersion, String)>)>, cc: CountryCode, gv: GameVersion) -> Option<Seq<char>> {
    match region_versions(v, cc) {
        Some(list) => version_path(list, gv),
        None => None,
    }
}

/// Where no region is listed twice, the list found for a region is the one
/// listed with it.
pub proof fn lemma_region_listed(v: Seq<(CountryCode, Vec<(GameVersion, String)>)>, i: int)
    requires
        0 <= i < v.len(),
        metadata_wf(v),
    ensures
        region_versions(v, v[i].0) == Some(v[i].1@),
    decreases v.len(),
{
    if i > 0 {
        assert(v[0].0 != v[i].0);
        let w = v.drop_first();
        assert(w[i - 1] == v[i]);
        assert forall|a: int, b: int| 0 <= a < b < w.len() implies w[a].0 != w[b].0 by {
            assert(w[a] == v[a + 1] && w[b] == v[b + 1]);
        }
        assert forall|a: int| 0 <= a < w.len() implies distinct_versions(#[trigger] w[a].1@) by {
            assert(w[a] == v[a + 1]);
        }
        lemma_region_listed(w, i - 1);
    }
}

/// Where no version is listed twice, the path found for a version is the one
/// listed with it.
pub proof fn lemma_version_listed(list: Seq<(GameVersion, String)>, j: int)
    requires
        0 <= j < list.len(),
        distinct_versions(list),
    ensures
        version_path(list, list[j].0) == Some(list[j].1@),
    decreases list.len(),
{
    if j > 0 {
        assert(list[0].0 != list[j].0);
        let w = list.drop_first();
        assert(w[j - 1] == list[j]);
        assert forall|a: int, b: int| 0 <= a < b < w.len() implies w[a].0 != w[b].0 by {
            assert(w[a] == list[a + 1] && w[b] == list[b + 1]);
        }
        lemma_version_listed(w, j - 1);
    }
}

proof fn lemma_region_update(
    v: Seq<(CountryCode, Vec<(GameVersion, String)>)>,
    r: int,
    e: (CountryCode, Vec<(GameVersion, String)>),
    x: CountryCode,
)
    requires
        0 <= r < v.len(),
        v[r].0 == e.0,
        forall|k: int| 0 <= k < r ==> v[k].0 != e.0,
    ensures
        region_versions(v.update(r, e), x) == if x == e.0 {
            Some(e.1@)
        } else {
            region_versions(v, x)
        },
    decreases v.len(),
{
    let u = v.update(r, e);
    if r > 0 {
        assert(u[0] == v[0]);
        assert(u.drop_first() =~= v.drop_first().update(r - 1, e));
        assert forall|k: int| 0 <= k < r - 1 implies v.drop_first()[k].0 != e.0 by {
            assert(v.drop_first()[k] == v[k + 1]);
        }
        lemma_region_update(v.drop_first(), r - 1, e, x);
    } else {
        assert(u.drop_first() =~= v.drop_first());
    }
}

proof fn lemma_region_push(v: Seq<(CountryCode, Vec<(GameVersion, String)>)>, e: (CountryCode, Vec<(GameVersion, String)>), x: CountryCode)
    ensures
        region_versions(v.push(e), x) == match region_versions(v, x) {
            Some(l) => Some(l),
            None => if x == e.0 {
                Some(e.1@)
            } else {
                None
            },
        },
    decreases v.len(),
{
    if v.len() > 0 {
        assert(v.push(e).drop_first() =~= v.drop_first().push(e));
        lemma_region_push(v.drop_first(), e, x);
    } else {
        assert(v.push(e).drop_first() =~= v);
    }
}

proof fn lemma_version_update(list: Seq<(GameVersion, String)>, j: int, e: (GameVersion, String), x: GameVersion)
    requires
        0 <= j < list.len(),
        list[j].0 == e.0,
        forall|k: int| 0 <= k < j ==> list[k].0 != e.0,
    ensures
        version_path(list.update(j, e), x) == if x == e.0 {
            Some(e.1@)
        } else {
            version_path(list, x)
        },
    decreases list.len(),
{
    let u = list.update(j, e);
    if j > 0 {
        assert(u[0] == list[0]);
        assert(u.drop_first() =~= list.drop_first().update(j - 1, e));
        assert forall|k: int| 0 <= k < j - 1 implies list.drop_first()[k].0 != e.0 by {
            assert(list.drop_first()[k] == list[k + 1]);
        }
        lemma_version_update(list.drop_first(), j - 1, e, x);
    } else {
        assert(u.drop_first() =~= list.drop_first());
    }
}

proof fn lemma_version_push(list: Seq<(GameVersion, String)>, e: (GameVersion, String), x: GameVersion)
    ensures
        version_path(list.push(e), x) == match version_path(list, x) {
            Some(p) => Some(p),
            None => if x == e.0 {
                Some(e.1@)
            } else {
                None
            },
        },
    decreases list.len(),
{
    if list.len() > 0 {
        assert(list.push(e).drop_first() =~= list.drop_first().push(e));
        lemma_version_push(list.drop_first(), e, x);
    } else {
        assert(list.push(e).drop_first() =~= list);
    }
}

proof fn lemma_version_absent(list: Seq<(GameVersion, String)>, x: GameVersion)
    requires
        forall|k: int| 0 <= k < list.len() ==> list[k].0 != x,
    ensures
        version_path(list, x) is None,
    decreases list.len(),
{
    if list.len() > 0 {
        assert forall|k: int| 0 <= k < list.drop_first().len() implies list.drop_first()[k].0 != x by {
            assert(list.drop_first()[k] == list[k + 1]);
        }
        lemma_version_absent(list.drop_first(), x);
    }
}

proof fn lemma_region_absent(v: Seq<(CountryCode, Vec<(GameVersion, String)>)>, x: CountryCode)
    requires
        forall|k: int| 0 <= k < v.len() ==> v[k].0 != x,
    ensures
        region_versions(v, x) is None,
    decreases v.len(),
{
    if v.len() > 0 {
        assert forall|k: int| 0 <= k < v.drop_first().len() implies v.drop_first()[k].0 != x by {
            assert(v.drop_first()[k] == v[k + 1]);
        }
        lemma_region_absent(v.drop_first(), x);
    }
}

impl GameRepoMetadata {
    /// Metadata with no regions yet.
    pub fn new(base_url: String) -> (m: Self)
        ensures
            m.base_url == base_url,
            m.versions@.len() == 0,
            metadata_wf(m.versions@),
    {
        GameRepoMetadata { base_url, versions: Vec::new() }
    }

    /// Where a version's data is kept below the game data folder: a folder
    /// named by the region's code, holding one named by the version's text.
    /// Gives the two names, in that order.
    pub fn get_version_path(country_code: CountryCode, game_version: GameVersion) -> (p: (String, String))
        ensures
            p.0@ == cc_code(country_code),
            p.1@ == ascii_chars(spec_version_text(game_version.0)),
    {
        (country_code.to_string(), game_version.to_string())
    }

    /// Lists `path` for version `gv` of region `cc`, in place of any path
    /// listed for it before; every other listing stays as it was.
    pub fn insert_version(&mut self, cc: CountryCode, gv: GameVersion, path: String)
        requires
            metadata_wf(old(self).versions@),
        ensures
            metadata_wf(final(self).versions@),
            final(self).base_url == old(self).base_url,
            listed_path(final(self).versions@, cc, gv) == Some(path@),
            forall|c: CountryCode, g: GameVersion|
                !(c == cc && g == gv) ==> #[trigger] listed_path(final(self).versions@, c, g) == listed_path(
                    old(self).versions@,
                    c,
                    g,
                ),
    {
        let ghost v = self.versions@;
        let mut r: usize = 0;
        while r < self.versions.len()
            invariant
                v == self.versions@,
                r <= v.len(),
                forall|k: int| 0 <= k < r ==> v[k].0 != cc,
            ensures
                r <= v.len(),
                forall|k: int| 0 <= k < r ==> v[k].0 != cc,
                r < v.len() ==> v[r as int].0 == cc,
            decreases v.len() - r,
        {
            if self.versions[r].0 == cc {
                break;
            }
            r = r + 1;
        }
        if r == self.versions.len() {
            let mut list: Vec<(GameVersion, String)> = Vec::new();
            list.push((gv, path));
            let ghost e = (cc, list);
            self.versions.push((cc, list));
            proof {
                assert(self.versions@ == v.push(e));
                lemma_region_absent(v, cc);
                assert forall|c: CountryCode, g: GameVersion|
                    #![trigger listed_path(self.versions@, c, g)]
                    true implies (c == cc && g == gv ==> listed_path(self.versions@, c, g) == Some(path@)) && (!(c == cc
                        && g == gv) ==> listed_path(self.versions@, c, g) == listed_path(v, c, g)) by {
                    lemma_region_push(v, e, c);
                    if c == cc {
                        lemma_version_push(Seq::empty(), (gv, path), g);
                        assert(e.1@ =~= Seq::<(GameVersion, String)>::empty().push((gv, path)));
                    }
                }
                assert(distinct_versions(e.1@));
                assert forall|a: int| 0 <= a < self.versions@.len() implies distinct_versions(
                    #[trigger] self.versions@[a].1@,
                ) by {
                    if a < v.len() {
                        assert(self.versions@[a] == v[a]);
                    }
                }
            }
        } else {
            let (c0, mut list) = self.versions.remove(r);
            let ghost l = list@;
            let mut j: usize = 0;
            while j < list.len()
                invariant
                    l == list@,
                    j <= l.len(),
                    forall|k: int| 0 <= k < j ==> l[k].0 != gv,
                ensures
                    j <= l.len(),
                    forall|k: int| 0 <= k < j ==> l[k].0 != gv,
                    j < l.len() ==> l[j as int].0 == gv,
                decreases l.len() - j,
            {
                if list[j].0 == gv {
                    break;
                }
                j = j + 1;
            }
            if j == list.len() {
                list.push((gv, path));
            } else {
                list.remove(j);
                list.insert(j, (gv, path));
            }
            let ghost l2 = list@;
            let ghost e = (c0, list);
            self.versions.insert(r, (c0, list));
            proof {
                assert(self.versions@ =~= v.update(r as int, e));
                assert(v[r as int].1@ == l);
                assert forall|c: CountryCode, g: GameVersion|
                    #![trigger listed_path(self.versions@, c, g)]
                    true implies (c == cc && g == gv ==> listed_path(self.versions@, c, g) == Some(path@)) && (!(c == cc
                        && g == gv) ==> listed_path(self.versions@, c, g) == listed_path(v, c, g)) by {
                    lemma_region_update(v, r as int, e, c);
                    if c == cc {
                        lemma_region_listed(v, r as int);
                        if j == l.len() {
                            lemma_version_push(l, (gv, path), g);
                            lemma_version_absent(l, gv);
                        } else {
                            assert(l2 =~= l.update(j as int, (gv, path)));
                            lemma_version_update(l, j as int, (gv, path), g);
                        }
                    }
                }
                assert forall|a: int, b: int| 0 <= a < b < l2.len() implies l2[a].0 != l2[b].0 by {
                    assert(distinct_versions(v[r as int].1@));
                    if j == l.len() {
                        if b == l.len() {
                            assert(l2[a] == l[a]);
                        } else {
                            assert(l2[a] == l[a] && l2[b] == l[b]);
                        }
                    } else {
                        assert(l2 =~= l.update(j as int, (gv, path)));
                    }
                }
                assert forall|a: int| 0 <= a < self.versions@.len() implies distinct_versions(
                    #[trigger] self.versions@[a].1@,
                ) by {
                    if a != r {
                        assert(self.versions@[a] == v[a]);
                    }
                }
            }
        }
    }
}


/// The game's own languages (English, Japanese as "ja" or "jp", Korean as
/// "kr" or "ko", Taiwanese) are served by the pack itself; any other
/// language by the pack's name, an underscore and the language.
pub proof fn lemma_lang_pack_own_languages(base: Seq<char>, lang: Seq<char>)
    ensures
        (lang == "en"@ || lang == "ja"@ || lang == "jp"@ || lang == "kr"@ || lang == "ko"@ || lang == "tw"@)
            ==> lang_pack(base, lang) == base,
        !(lang == "en"@ || lang == "ja"@ || lang == "jp"@ || lang == "kr"@ || lang == "ko"@ || lang == "tw"@)
            ==> lang_pack(base, lang) == base + "_"@ + lang,
{
}

/// The language of every region is one of the game's own: its pack is the
/// pack itself.
pub proof fn lemma_lang_pack_region(base: Seq<char>, cc: CountryCode)
    ensures
        lang_pack(base, crate::country_code::cc_lang(cc)) == base,
{
    reveal_strlit("en");
    reveal_strlit("ja");
    reveal_strlit("ko");
    reveal_strlit("tw");
    assert(crate::country_code::cc_lang(CountryCode::Jp) =~= "ja"@);
    assert(crate::country_code::cc_lang(CountryCode::En) =~= "en"@);
    assert(crate::country_code::cc_lang(CountryCode::Kr) =~= "ko"@);
    assert(crate::country_code::cc_lang(CountryCode::Tw) =~= "tw"@);
}

} // verus!
