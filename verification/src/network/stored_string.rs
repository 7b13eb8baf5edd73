//! Strings the editor keeps among a save's order ids: each is a line
//! `identifier:value`, read back from the text after the line's first colon.

use vstd::prelude::*;
use vstd::string::*;

verus! {

/// The texts of a list of strings.
pub open spec fn texts(v: Seq<String>) -> Seq<Seq<char>> {
    v.map_values(|s: String| s@)
}

/// The text after the first colon of a line, if it has one.
pub open spec fn after_colon(s: Seq<char>) -> Option<Seq<char>>
    decreases s.len(),
{
    if s.len() == 0 {
        None
    } else if s[0] == ':' {
        Some(s.drop_first())
    } else {
        after_colon(s.drop_first())
    }
}

/// A line that starts with the identifier and has a colon.
pub open spec fn line_matches(ident: Seq<char>, line: Seq<char>) -> bool {
    ident.is_prefix_of(line) && after_colon(line) is Some
}

/// The value of the first matching line.
pub open spec fn read_first(ident: Seq<char>, lines: Seq<Seq<char>>) -> Option<Seq<char>>
    decreases lines.len(),
{
    if lines.len() == 0 {
        None
    } else if line_matches(ident, lines[0]) {
        after_colon(lines[0])
    } else {
        read_first(ident, lines.drop_first())
    }
}

/// The values of all matching lines, in order.
pub open spec fn read_all(ident: Seq<char>, lines: Seq<Seq<char>>) -> Seq<Seq<char>>
    decreases lines.len(),
{
    if lines.len() == 0 {
        seq![]
    } else {
        let rest = read_all(ident, lines.drop_first());
        if line_matches(ident, lines[0]) {
            seq![after_colon(lines[0]).unwrap()] + rest
        } else {
            rest
        }
    }
}

/// The lines that start with the prefix, in order.
pub open spec fn kept_lines(prefix: Seq<char>, lines: Seq<Seq<char>>) -> Seq<Seq<char>>
    decreases lines.len(),
{
    if lines.len() == 0 {
        seq![]
    } else {
        let rest = kept_lines(prefix, lines.drop_first());
        if prefix.is_prefix_of(lines[0]) {
            seq![lines[0]] + rest
        } else {
            rest
        }
    }
}

/// The identifier under which the editor stores a value.
pub open spec fn identifier(ident: Seq<char>) -> Seq<char> {
    "_bcsfe:"@ + ident
}

/// The line that stores a value under an identifier.
pub open spec fn stored_line(ident: Seq<char>, value: Seq<char>) -> Seq<char> {
    ident + ":"@ + value
}

/// The text after the first colon of `ident:value`, where the identifier has
/// no colon, is the value.
pub proof fn lemma_after_colon_stored(ident: Seq<char>, value: Seq<char>)
    requires
        !ident.contains(':'),
    ensures
        after_colon(stored_line(ident, value)) == Some(value),
    decreases ident.len(),
{
    let line = stored_line(ident, value);
    reveal_strlit(":");
    if ident.len() == 0 {
        assert(line =~= seq![':'] + value);
        assert(line.drop_first() =~= value);
    } else {
        assert(ident[0] != ':') by {
            if ident[0] == ':' {
                assert(ident.contains(':'));
            }
        }
        assert(!ident.drop_first().contains(':')) by {
            if ident.drop_first().contains(':') {
                let i = choose|i: int| 0 <= i < ident.drop_first().len() && ident.drop_first()[i] == ':';
                assert(ident[i + 1] == ':');
            }
        }
        lemma_after_colon_stored(ident.drop_first(), value);
        assert(line.drop_first() =~= stored_line(ident.drop_first(), value));
    }
}

/// A value stored under an identifier that has no colon is what reading that
/// identifier gives back, where no line before it already answers for the
/// identifier.
pub proof fn lemma_store_then_read(ident: Seq<char>, value: Seq<char>, lines: Seq<Seq<char>>)
    requires
        !ident.contains(':'),
        read_first(ident, lines) is None,
    ensures
        read_first(ident, lines.push(stored_line(ident, value))) == Some(value),
    decreases lines.len(),
{
    let line = stored_line(ident, value);
    lemma_after_colon_stored(ident, value);
    assert(ident.is_prefix_of(line)) by {
        assert(line.take(ident.len() as int) =~= ident);
    }
    if lines.len() == 0 {
        assert(lines.push(line) =~= seq![line]);
        assert(seq![line][0] == line);
    } else {
        assert(!line_matches(ident, lines[0]));
        assert(lines.push(line).drop_first() =~= lines.drop_first().push(line));
        assert(lines.push(line)[0] == lines[0]);
        lemma_store_then_read(ident, value, lines.drop_first());
    }
}

fn starts_with(s: &str, prefix: &str) -> (b: bool)
    ensures
        b == prefix@.is_prefix_of(s@),
{
    let n = prefix.unicode_len();
    if n > s.unicode_len() {
        return false;
    }
    let mut i: usize = 0;
    while i < n
        invariant
            n == prefix@.len(),
            n <= s@.len(),
            i <= n,
            forall|j: int| 0 <= j < i ==> prefix@[j] == s@[j],
        decreases n - i,
    {
        if prefix.get_char(i) != s.get_char(i) {
            return false;
        }
        i = i + 1;
    }
    assert(prefix@ =~= s@.take(n as int));
    true
}

fn text_after_colon(s: &str) -> (res: Option<String>)
    ensures
        match after_colon(s@) {
            Some(v) => res matches Some(r) && r@ == v,
            None => res is None,
        },
{
    let n = s.unicode_len();
    let mut i: usize = 0;
    assert(s@.skip(0) =~= s@);
    while i < n
        invariant
            n == s@.len(),
            i <= n,
            after_colon(s@) == after_colon(s@.skip(i as int)),
        decreases n - i,
    {
        assert(s@.skip(i as int)[0] == s@[i as int]);
        if s.get_char(i) == ':' {
            assert(s@.skip(i as int).drop_first() =~= s@.subrange(i + 1, n as int));
            let rest = s.substring_char(i + 1, n);
            return Some(rest.to_owned());
        }
        assert(s@.skip(i as int).drop_first() =~= s@.skip(i + 1));
        i = i + 1;
    }
    assert(s@.skip(n as int).len() == 0);
    None
}

/// Values that can be kept as lines under an identifier.
pub trait StringStorable {
    fn store(&self, ident: &str, existing: &mut Vec<String>);

    fn read(ident: &str, data: &Vec<String>) -> Option<Self> where Self: Sized;
}

impl StringStorable for String {
    /// Adds the line `ident:value`.
    fn store(&self, ident: &str, existing: &mut Vec<String>)
        ensures
            texts(final(existing)@) == texts(old(existing)@).push(stored_line(ident@, self@)),
    {
        let mut line = ident.to_owned();
        line.append(":");
        line.append(self.as_str());
        existing.push(line);
        assert(texts(existing@) =~= texts(old(existing)@).push(stored_line(ident@, self@)));
    }

    /// The value of the first line that starts with `ident` and has a
    /// colon: the text after its first colon.
    fn read(ident: &str, data: &Vec<String>) -> (res: Option<String>)
        ensures
            match read_first(ident@, texts(data@)) {
                Some(v) => res matches Some(r) && r@ == v,
                None => res is None,
            },
    {
        let ghost lines = texts(data@);
        let mut k: usize = 0;
        assert(lines.skip(0) =~= lines);
        while k < data.len()
            invariant
                lines == texts(data@),
                k <= data@.len(),
                read_first(ident@, lines) == read_first(ident@, lines.skip(k as int)),
            decreases data@.len() - k,
        {
            let line = data[k].as_str();
            assert(lines.skip(k as int)[0] == line@);
            assert(lines.skip(k as int).drop_first() =~= lines.skip(k + 1));
            if starts_with(line, ident) {
                let v = text_after_colon(line);
                if v.is_some() {
                    return v;
                }
            }
            k = k + 1;
        }
        None
    }
}

impl StringStorable for Vec<String> {
    /// Adds the line `ident:value` for each value, in order.
    fn store(&self, ident: &str, existing: &mut Vec<String>)
        ensures
            texts(final(existing)@) == texts(old(existing)@) + Seq::new(
                self@.len(),
                |i: int| stored_line(ident@, self@[i]@),
            ),
    {
        let mut i: usize = 0;
        while i < self.len()
            invariant
                i <= self@.len(),
                texts(existing@) == texts(old(existing)@) + Seq::new(
                    i as nat,
                    |j: int| stored_line(ident@, self@[j]@),
                ),
            decreases self@.len() - i,
        {
            self[i].store(ident, existing);
            i = i + 1;
            assert(texts(existing@) =~= texts(old(existing)@) + Seq::new(
                i as nat,
                |j: int| stored_line(ident@, self@[j]@),
            ));
        }
    }

    /// The values of all lines that start with `ident` and have a colon.
    fn read(ident: &str, data: &Vec<String>) -> (res: Option<Vec<String>>)
        ensures
            res matches Some(v) && texts(v@) == read_all(ident@, texts(data@)),
    {
        let ghost lines = texts(data@);
        let mut out: Vec<String> = Vec::new();
        let mut k: usize = 0;
        assert(lines.skip(0) =~= lines);
        assert(texts(out@) + read_all(ident@, lines) =~= read_all(ident@, lines));
        while k < data.len()
            invariant
                lines == texts(data@),
                k <= data@.len(),
                texts(out@) + read_all(ident@, lines.skip(k as int)) == read_all(ident@, lines),
            decreases data@.len() - k,
        {
            let line = data[k].as_str();
            assert(lines.skip(k as int)[0] == line@);
            assert(lines.skip(k as int).drop_first() =~= lines.skip(k + 1));
            let ghost before = texts(out@);
            if starts_with(line, ident) {
                match text_after_colon(line) {
                    Some(v) => {
                        out.push(v);
                        assert(texts(out@) =~= before.push(after_colon(line@).unwrap()));
                        assert(texts(out@) + read_all(ident@, lines.skip(k + 1)) =~= before + (seq![after_colon(line@).unwrap()] + read_all(ident@, lines.skip(k + 1))));
                    },
                    None => {},
                }
            }
            k = k + 1;
        }
        assert(lines.skip(k as int).len() == 0);
        assert(texts(out@) =~= texts(out@) + read_all(ident@, lines.skip(k as int)));
        Some(out)
    }
}

/// The identifier under which the editor stores a value: `_bcsfe:` and the
/// name.
pub fn get_identifier(ident: &str) -> (s: String)
    ensures
        s@ == identifier(ident@),
{
    let mut s = "_bcsfe:".to_owned();
    s.append(ident);
    s
}

/// Stores a value among the order ids under the editor's identifier.
pub fn store_to_save(ident: &str, val: &str, order_ids: &mut Vec<String>)
    ensures
        texts(final(order_ids)@) == texts(old(order_ids)@).push(stored_line(identifier(ident@), val@)),
{
    let id = get_identifier(ident);
    let v = val.to_owned();
    v.store(id.as_str(), order_ids);
}

/// Reads a value back from the order ids. The lines are looked up by the
/// bare name, not by the identifier they were stored under.
pub fn read_from_save(ident: &str, order_ids: &Vec<String>) -> (res: Option<String>)
    ensures
        match read_first(ident@, texts(order_ids@)) {
            Some(v) => res matches Some(r) && r@ == v,
            None => res is None,
        },
{
    <String as StringStorable>::read(ident, order_ids)
}

/// Goes over the order ids and keeps those that start with the editor's
/// identifier for `ident`, in order.
pub fn remove_from_save(ident: &str, order_ids: &mut Vec<String>)
    ensures
        texts(final(order_ids)@) == kept_lines(identifier(ident@), texts(old(order_ids)@)),
{
    let id = get_identifier(ident);
    let ghost lines = texts(order_ids@);
    let mut kept: Vec<String> = Vec::new();
    let mut k: usize = 0;
    assert(lines.skip(0) =~= lines);
    assert(texts(kept@) + kept_lines(id@, lines) =~= kept_lines(id@, lines));
    while k < order_ids.len()
        invariant
            lines == texts(order_ids@),
            lines == texts(old(order_ids)@),
            id@ == identifier(ident@),
            k <= order_ids@.len(),
            texts(kept@) + kept_lines(id@, lines.skip(k as int)) == kept_lines(id@, lines),
        decreases order_ids@.len() - k,
    {
        let line = order_ids[k].as_str();
        assert(lines.skip(k as int)[0] == line@);
        assert(lines.skip(k as int).drop_first() =~= lines.skip(k + 1));
        let ghost before = texts(kept@);
        if starts_with(line, id.as_str()) {
            kept.push(line.to_owned());
            assert(texts(kept@) =~= before.push(line@));
            assert(texts(kept@) + kept_lines(id@, lines.skip(k + 1)) =~= before + (seq![line@] + kept_lines(id@, lines.skip(k + 1))));
        }
        k = k + 1;
    }
    assert(lines.skip(k as int).len() == 0);
    assert(texts(kept@) =~= texts(kept@) + kept_lines(id@, lines.skip(k as int)));
    *order_ids = kept;
}

/// Stores the account's password.
pub fn save_password(password: &str, order_ids: &mut Vec<String>)
    ensures
        texts(final(order_ids)@) == texts(old(order_ids)@).push(stored_line(identifier("password"@), password@)),
{
    store_to_save("password", password, order_ids);
}

pub fn read_password(order_ids: &Vec<String>) -> (res: Option<String>)
    ensures
        match read_first("password"@, texts(order_ids@)) {
            Some(v) => res matches Some(r) && r@ == v,
            None => res is None,
        },
{
    read_from_save("password", order_ids)
}

pub fn remove_password(order_ids: &mut Vec<String>)
    ensures
        texts(final(order_ids)@) == kept_lines(identifier("password"@), texts(old(order_ids)@)),
{
    remove_from_save("password", order_ids);
}

/// Stores the account's auth token.
pub fn save_auth_token(auth_token: &str, order_ids: &mut Vec<String>)
    ensures
        texts(final(order_ids)@) == texts(old(order_ids)@).push(stored_line(identifier("auth_token"@), auth_token@)),
{
    store_to_save("auth_token", auth_token, order_ids);
}

pub fn read_auth_token(order_ids: &Vec<String>) -> (res: Option<String>)
    ensures
        match read_first("auth_token"@, texts(order_ids@)) {
            Some(v) => res matches Some(r) && r@ == v,
            None => res is None,
        },
{
    read_from_save("auth_token", order_ids)
}

pub fn remove_auth_token(order_ids: &mut Vec<String>)
    ensures
        texts(final(order_ids)@) == kept_lines(identifier("auth_token"@), texts(old(order_ids)@)),
{
    remove_from_save("auth_token", order_ids);
}


/* The save key: a map of texts kept as lines `key:value` */

/// The text before the first colon of a line (all of it where it has none).
pub open spec fn before_colon(s: Seq<char>) -> Seq<char>
    decreases s.len(),
{
    if s.len() == 0 || s[0] == ':' {
        seq![]
    } else {
        seq![s[0]] + before_colon(s.drop_first())
    }
}

/// The values that have a colon, split at it into key and value, in order.
pub open spec fn split_pairs(values: Seq<Seq<char>>) -> Seq<(Seq<char>, Seq<char>)>
    decreases values.len(),
{
    if values.len() == 0 {
        seq![]
    } else {
        let s = split_pairs(values.drop_last());
        match after_colon(values.last()) {
            Some(v) => s.push((before_colon(values.last()), v)),
            None => s,
        }
    }
}

/// The map that pairs give, a later pair for a key taking the place of an
/// earlier one.
pub open spec fn key_map(pairs: Seq<(Seq<char>, Seq<char>)>) -> Map<Seq<char>, Seq<char>>
    decreases pairs.len(),
{
    if pairs.len() == 0 {
        Map::empty()
    } else {
        key_map(pairs.drop_last()).insert(pairs.last().0, pairs.last().1)
    }
}

/// The texts of a list of pairs of strings.
pub open spec fn pair_texts(v: Seq<(String, String)>) -> Seq<(Seq<char>, Seq<char>)> {
    v.map_values(|p: (String, String)| (p.0@, p.1@))
}

/// No key occurs twice.
pub open spec fn distinct_keys(p: Seq<(Seq<char>, Seq<char>)>) -> bool {
    forall|a: int, b: int| 0 <= a < b < p.len() ==> p[a].0 != p[b].0
}

/// The line `key:value` of each pair, in order.
pub open spec fn pair_lines(p: Seq<(Seq<char>, Seq<char>)>) -> Seq<Seq<char>> {
    Seq::new(p.len(), |i: int| stored_line(p[i].0, p[i].1))
}

proof fn lemma_key_map_update(p: Seq<(Seq<char>, Seq<char>)>, j: int, v: Seq<char>)
    requires
        0 <= j < p.len(),
        distinct_keys(p),
    ensures
        key_map(p.update(j, (p[j].0, v))) == key_map(p).insert(p[j].0, v),
    decreases p.len(),
{
    let u = p.update(j, (p[j].0, v));
    if j == p.len() - 1 {
        assert(u.drop_last() =~= p.drop_last());
        assert(key_map(u) =~= key_map(p).insert(p[j].0, v));
    } else {
        assert(u.drop_last() =~= p.drop_last().update(j, (p[j].0, v)));
        assert(p.drop_last()[j] == p[j]);
        lemma_key_map_update(p.drop_last(), j, v);
        assert(p.last().0 != p[j].0);
        assert(key_map(u) =~= key_map(p).insert(p[j].0, v));
    }
}

/// The key and value of a line, split at its first colon.
fn split_at_colon(s: &str) -> (res: Option<(String, String)>)
    ensures
        match after_colon(s@) {
            Some(v) => res matches Some((k, x)) && k@ == before_colon(s@) && x@ == v,
            None => res is None,
        },
{
    let n = s.unicode_len();
    let mut i: usize = 0;
    assert(s@.skip(0) =~= s@);
    assert(s@.subrange(0, 0) + before_colon(s@.skip(0)) =~= before_colon(s@));
    while i < n
        invariant
            n == s@.len(),
            i <= n,
            after_colon(s@) == after_colon(s@.skip(i as int)),
            before_colon(s@) == s@.subrange(0, i as int) + before_colon(s@.skip(i as int)),
        decreases n - i,
    {
        assert(s@.skip(i as int)[0] == s@[i as int]);
        if s.get_char(i) == ':' {
            assert(s@.skip(i as int).drop_first() =~= s@.subrange(i + 1, n as int));
            assert(before_colon(s@) =~= s@.subrange(0, i as int));
            let key = s.substring_char(0, i);
            let rest = s.substring_char(i + 1, n);
            return Some((key.to_owned(), rest.to_owned()));
        }
        assert(s@.skip(i as int).drop_first() =~= s@.skip(i + 1));
        assert(s@.subrange(0, i + 1) =~= s@.subrange(0, i as int) + seq![s@[i as int]]);
        i = i + 1;
    }
    assert(s@.skip(n as int).len() == 0);
    None
}

/// Stores the save key: the line `key:value` of each pair, in order, under
/// the editor's identifier.
pub fn save_save_key(save_key: &Vec<(String, String)>, order_ids: &mut Vec<String>)
    ensures
        texts(final(order_ids)@) == texts(old(order_ids)@) + Seq::new(
            save_key@.len(),
            |i: int| stored_line(identifier("save_key"@), stored_line(save_key@[i].0@, save_key@[i].1@)),
        ),
{
    let id = get_identifier("save_key");
    let mut i: usize = 0;
    while i < save_key.len()
        invariant
            id@ == identifier("save_key"@),
            i <= save_key@.len(),
            texts(order_ids@) == texts(old(order_ids)@) + Seq::new(
                i as nat,
                |j: int| stored_line(identifier("save_key"@), stored_line(save_key@[j].0@, save_key@[j].1@)),
            ),
        decreases save_key@.len() - i,
    {
        let mut line = save_key[i].0.clone();
        line.append(":");
        line.append(save_key[i].1.as_str());
        line.store(id.as_str(), order_ids);
        i = i + 1;
        assert(texts(order_ids@) =~= texts(old(order_ids)@) + Seq::new(
            i as nat,
            |j: int| stored_line(identifier("save_key"@), stored_line(save_key@[j].0@, save_key@[j].1@)),
        ));
    }
}

/// Reads the save key back: the values of the lines that start with the
/// bare name `save_key`, split at their first colon, as a map in which a
/// later line for a key takes the place of an earlier one. Each key is
/// given once.
pub fn read_save_key(order_ids: &Vec<String>) -> (res: Option<Vec<(String, String)>>)
    ensures
        res matches Some(v) && distinct_keys(pair_texts(v@)) && key_map(pair_texts(v@)) == key_map(
            split_pairs(read_all("save_key"@, texts(order_ids@))),
        ),
{
    let values = match <Vec<String> as StringStorable>::read("save_key", order_ids) {
        Some(v) => v,
        None => Vec::new(),
    };
    let ghost vals = texts(values@);
    let mut out: Vec<(String, String)> = Vec::new();
    let mut k: usize = 0;
    assert(vals.take(0) =~= Seq::<Seq<char>>::empty());
    assert(pair_texts(out@) =~= Seq::<(Seq<char>, Seq<char>)>::empty());
    while k < values.len()
        invariant
            vals == texts(values@),
            k <= values@.len(),
            distinct_keys(pair_texts(out@)),
            key_map(pair_texts(out@)) == key_map(split_pairs(vals.take(k as int))),
        decreases values@.len() - k,
    {
        assert(vals.take(k + 1).drop_last() =~= vals.take(k as int));
        assert(vals.take(k + 1).last() == values@[k as int]@);
        let ghost prev = split_pairs(vals.take(k as int));
        match split_at_colon(values[k].as_str()) {
            Some((key, val)) => {
                let ghost before = pair_texts(out@);
                let mut j: usize = 0;
                while j < out.len()
                    invariant
                        before == pair_texts(out@),
                        j <= out@.len(),
                        forall|x: int| 0 <= x < j ==> before[x].0 != key@,
                    ensures
                        j <= out@.len(),
                        forall|x: int| 0 <= x < j ==> before[x].0 != key@,
                        j < out@.len() ==> before[j as int].0 == key@,
                    decreases out@.len() - j,
                {
                    if crate::game_data::str_eq(out[j].0.as_str(), key.as_str()) {
                        break;
                    }
                    j = j + 1;
                }
                let ghost kv = key@;
                let ghost vv = val@;
                proof {
                    assert(split_pairs(vals.take(k + 1)) == prev.push((kv, vv)));
                    assert(prev.push((kv, vv)).drop_last() =~= prev);
                    assert(key_map(split_pairs(vals.take(k + 1))) == key_map(prev).insert(kv, vv));
                }
                if j < out.len() {
                    out.remove(j);
                    out.insert(j, (key, val));
                    proof {
                        assert(pair_texts(out@) =~= before.update(j as int, (before[j as int].0, vv)));
                        lemma_key_map_update(before, j as int, vv);
                    }
                } else {
                    out.push((key, val));
                    proof {
                        assert(pair_texts(out@) =~= before.push((kv, vv)));
                        assert(pair_texts(out@).drop_last() =~= before);
                    }
                }
            },
            None => {
                assert(split_pairs(vals.take(k + 1)) == prev);
            },
        }
        k = k + 1;
    }
    assert(vals.take(k as int) =~= vals);
    Some(out)
}

/// Removes the save key: keeps only the lines that start with the editor's
/// identifier for it, as `remove_from_save` does.
pub fn remove_save_key(order_ids: &mut Vec<String>)
    ensures
        texts(final(order_ids)@) == kept_lines(identifier("save_key"@), texts(old(order_ids)@)),
{
    remove_from_save("save_key", order_ids);
}

} // verus!
