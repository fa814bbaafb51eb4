//! Configuration values: `.env` parsing and the lookup order
//! secrets file → environment → `.env`.

use vstd::prelude::*;
use crate::named_map::NamedMap;
use crate::text::{chars_of, is_space, string_from_range, trim, trim_end, trim_range, trim_start, trim_str};

verus! {

/// The pieces of `s` between newline characters, as `str::split('\n')`
/// yields them.  (Each piece is trimmed before use, so a `\r` before the
/// newline and an empty piece after a final newline make no difference.)
pub open spec fn split_lines(s: Seq<char>) -> Seq<Seq<char>>
    decreases s.len(),
{
    if s.len() == 0 {
        seq![Seq::<char>::empty()]
    } else {
        let prev = split_lines(s.drop_last());
        if s.last() == '\n' {
            prev.push(Seq::<char>::empty())
        } else {
            prev.update(prev.len() - 1, prev.last().push(s.last()))
        }
    }
}

/// `i` is the position of the first `=` in `line`.
pub open spec fn is_first_eq(line: Seq<char>, i: int) -> bool {
    &&& 0 <= i < line.len()
    &&& line[i] == '='
    &&& forall|j: int| 0 <= j < i ==> line[j] != '='
}

/// The key and value that one raw line of a `.env` file defines: the line
/// is trimmed; blank lines, lines starting with `#`, lines without `=` and
/// lines whose key is blank define nothing; otherwise the key is the
/// trimmed text before the first `=` and the value the trimmed text after it.
pub open spec fn line_entry(raw: Seq<char>) -> Option<(Seq<char>, Seq<char>)> {
    let line = trim(raw);
    if line.len() == 0 || line[0] == '#' {
        None
    } else if exists|i: int| is_first_eq(line, i) {
        let i = choose|i: int| is_first_eq(line, i);
        let key = trim(line.take(i));
        if key.len() == 0 {
            None
        } else {
            Some((key, trim(line.skip(i + 1))))
        }
    } else {
        None
    }
}

/// The map that the lines define, read in order; a later line for a key
/// replaces the value of an earlier one.
pub open spec fn lines_map(lines: Seq<Seq<char>>) -> Map<Seq<char>, Seq<char>>
    decreases lines.len(),
{
    if lines.len() == 0 {
        Map::empty()
    } else {
        let m = lines_map(lines.drop_last());
        match line_entry(lines.last()) {
            Some(kv) => m.insert(kv.0, kv.1),
            None => m,
        }
    }
}

/// The key/value map that the text of a `.env` file defines.
pub open spec fn dotenv_spec(content: Seq<char>) -> Map<Seq<char>, Seq<char>> {
    lines_map(split_lines(content))
}

proof fn lemma_split_lines_nonempty(s: Seq<char>)
    ensures
        split_lines(s).len() >= 1,
    decreases s.len(),
{
    if s.len() > 0 {
        lemma_split_lines_nonempty(s.drop_last());
    }
}

/// Keys and values read from a `.env` file.
pub struct DotenvMap {
    map: NamedMap<String>,
}

impl View for DotenvMap {
    type V = Map<Seq<char>, Seq<char>>;

    closed spec fn view(&self) -> Map<Seq<char>, Seq<char>> {
        self.map@.map_values(|v: String| v@)
    }
}

impl DotenvMap {
    /// A map with no keys.
    pub fn new() -> (m: Self)
        ensures
            m@ == Map::<Seq<char>, Seq<char>>::empty(),
    {
        let m = DotenvMap { map: NamedMap::new() };
        assert(m@ =~= Map::<Seq<char>, Seq<char>>::empty());
        m
    }

    /// The value of `key`, if the file defines it.
    pub fn get(&self, key: &str) -> (r: Option<String>)
        ensures
            match r {
                Some(v) => self@.contains_key(key@) && v@ == self@[key@],
                None => !self@.contains_key(key@),
            },
    {
        match self.map.get(key) {
            Some(v) => Some(v.clone()),
            None => None,
        }
    }

    /// Stores `value` under `key`.
    fn set(&mut self, key: String, value: String)
        ensures
            final(self)@ == old(self)@.insert(key@, value@),
    {
        let ghost k = key@;
        let ghost v = value@;
        let _ = self.map.insert(key, value);
        assert(self@ =~= old(self)@.insert(k, v));
    }
}

/// Applies the line `cs[lo..hi]` to `map`.
fn apply_line(map: &mut DotenvMap, cs: &Vec<char>, lo: usize, hi: usize)
    requires
        lo <= hi <= cs.len(),
    ensures
        final(map)@ == match line_entry(cs@.subrange(lo as int, hi as int)) {
            Some(kv) => old(map)@.insert(kv.0, kv.1),
            None => old(map)@,
        },
{
    let ghost raw = cs@.subrange(lo as int, hi as int);
    let (a, b) = trim_range(cs, lo, hi);
    let ghost line = cs@.subrange(a as int, b as int);
    assert(line == trim(raw));
    if a == b || cs[a] == '#' {
        return;
    }
    let mut k: usize = a;
    while k < b && cs[k] != '='
        invariant
            a <= k <= b <= cs.len(),
            forall|j: int| a <= j < k ==> cs@[j] != '=',
        decreases b - k,
    {
        k = k + 1;
    }
    if k == b {
        proof {
            assert forall|i: int| !is_first_eq(line, i) by {
                if 0 <= i < line.len() {
                    assert(line[i] == cs@[a + i]);
                }
            }
        }
        return;
    }
    proof {
        let i0 = k - a;
        assert(is_first_eq(line, i0)) by {
            assert forall|j: int| 0 <= j < i0 implies line[j] != '=' by {
                assert(line[j] == cs@[a + j]);
            }
        }
        let i = choose|i: int| is_first_eq(line, i);
        if i < i0 {
            assert(line[i] == cs@[a + i]);
        }
        if i0 < i {
            assert(line[i0] != '=');
        }
        assert(i == i0);
        assert(line.take(i0) =~= cs@.subrange(a as int, k as int));
        assert(line.skip(i0 + 1) =~= cs@.subrange(k + 1, b as int));
    }
    let (ka, kb) = trim_range(cs, a, k);
    if ka == kb {
        return;
    }
    let (va, vb) = trim_range(cs, k + 1, b);
    let key = string_from_range(cs, ka, kb);
    let value = string_from_range(cs, va, vb);
    map.set(key, value);
}

/// Parses the text of a `.env` file: `KEY=VALUE` lines, with comments
/// (`#`) and blank lines ignored; no quoting, escaping or interpolation.
/// `None` stands for a file that is absent or cannot be read, which
/// yields an empty map.
pub fn parse_dotenv(content: Option<&str>) -> (m: DotenvMap)
    ensures
        m@ == match content {
            Some(c) => dotenv_spec(c@),
            None => Map::<Seq<char>, Seq<char>>::empty(),
        },
{
    let mut map = DotenvMap::new();
    let text = match content {
        Some(c) => c,
        None => return map,
    };
    let cs = chars_of(text);
    let mut start: usize = 0;
    let mut i: usize = 0;
    let ghost mut done: Seq<Seq<char>> = Seq::empty();
    proof {
        assert(cs@.take(0) =~= Seq::<char>::empty());
        assert(cs@.subrange(0, 0) =~= Seq::<char>::empty());
    }
    while i < cs.len()
        invariant
            start <= i <= cs.len(),
            split_lines(cs@.take(i as int)) == done.push(cs@.subrange(start as int, i as int)),
            map@ == lines_map(done),
        decreases cs.len() - i,
    {
        let ghost prefix = cs@.take(i as int);
        proof {
            assert(cs@.take(i + 1).drop_last() =~= prefix);
            assert(cs@.take(i + 1).last() == cs@[i as int]);
            lemma_split_lines_nonempty(prefix);
        }
        if cs[i] == '\n' {
            let ghost line = cs@.subrange(start as int, i as int);
            apply_line(&mut map, &cs, start, i);
            proof {
                assert(done.push(line).drop_last() =~= done);
                done = done.push(line);
                assert(cs@.subrange(i + 1, i + 1) =~= Seq::<char>::empty());
            }
            start = i + 1;
        } else {
            proof {
                let prev = split_lines(prefix);
                assert(cs@.subrange(start as int, i + 1) =~= cs@.subrange(start as int, i as int).push(
                    cs@[i as int],
                ));
                assert(prev.update(prev.len() - 1, prev.last().push(cs@[i as int])) =~= done.push(
                    cs@.subrange(start as int, i + 1),
                ));
            }
        }
        i = i + 1;
    }
    let ghost last = cs@.subrange(start as int, i as int);
    apply_line(&mut map, &cs, start, i);
    proof {
        assert(cs@.take(i as int) =~= text@);
        assert(done.push(last).drop_last() =~= done);
    }
    map
}

/// A `.env` map that is parsed once and then reused.
pub struct DotenvCache {
    loaded: Option<DotenvMap>,
}

impl DotenvCache {
    /// The map, once loaded.
    pub closed spec fn contents(self) -> Option<Map<Seq<char>, Seq<char>>> {
        match self.loaded {
            Some(m) => Some(m@),
            None => None,
        }
    }

    /// A cache that has not loaded anything yet.
    pub fn new() -> (c: Self)
        ensures
            c.contents() is None,
    {
        DotenvCache { loaded: None }
    }

    /// Whether the map has been loaded.
    pub fn is_loaded(&self) -> (b: bool)
        ensures
            b == self.contents() is Some,
    {
        self.loaded.is_some()
    }
}

/// The cached `.env` map: on the first call `content` is parsed and kept,
/// on every later call the kept map is returned and `content` is ignored.
pub fn dotenv_map<'a>(cache: &'a mut DotenvCache, content: Option<&str>) -> (m: &'a DotenvMap)
    ensures
        old(cache).contents() is Some ==> final(cache).contents() == old(cache).contents(),
        old(cache).contents() is None ==> final(cache).contents() == Some(
            match content {
                Some(c) => dotenv_spec(c@),
                None => Map::<Seq<char>, Seq<char>>::empty(),
            },
        ),
        final(cache).contents() == Some(m@),
{
    if cache.loaded.is_none() {
        cache.loaded = Some(parse_dotenv(content));
    }
    cache.loaded.as_ref().unwrap()
}

/// What the process environment holds for a key.
pub enum EnvValue {
    /// The variable is set to valid unicode text.
    Present(String),
    /// The variable is not set.
    Unset,
    /// The variable is set but is not valid unicode; it is passed over.
    NotUnicode,
}

/// The text of an optional string.
pub open spec fn opt_text(o: Option<String>) -> Option<Seq<char>> {
    match o {
        Some(s) => Some(s@),
        None => None,
    }
}

impl EnvValue {
    /// The usable value of the variable, if any.
    pub open spec fn usable(self) -> Option<Seq<char>> {
        match self {
            EnvValue::Present(v) => Some(v@),
            _ => None,
        }
    }
}

/// The first of the three sources that has a value, in the order
/// secrets file, environment, `.env` file.
pub open spec fn first_found(
    secret: Option<Seq<char>>,
    env: Option<Seq<char>>,
    dotenv: Option<Seq<char>>,
) -> Option<Seq<char>> {
    if secret is Some {
        secret
    } else if env is Some {
        env
    } else {
        dotenv
    }
}

/// The value of `key` in a `.env` map, if present.
pub open spec fn map_lookup(m: Map<Seq<char>, Seq<char>>, key: Seq<char>) -> Option<Seq<char>> {
    if m.contains_key(key) {
        Some(m[key])
    } else {
        None
    }
}

/// Looks up `key`: the trimmed content of its secrets file if one was
/// found, else the environment variable if it is set to valid unicode,
/// else the `.env` entry; `None` when no source has it.
pub fn get_config(key: &str, secret: Option<String>, env: EnvValue, dotenv: &DotenvMap) -> (r:
    Option<String>)
    ensures
        opt_text(r) == first_found(opt_text(secret), env.usable(), map_lookup(dotenv@, key@)),
{
    if let Some(v) = secret {
        return Some(v);
    }
    match env {
        EnvValue::Present(v) => return Some(v),
        EnvValue::Unset => {},
        EnvValue::NotUnicode => {},
    }
    dotenv.get(key)
}

proof fn lemma_split_lines_append_line(a: Seq<char>, b: Seq<char>)
    requires
        forall|i: int| 0 <= i < b.len() ==> b[i] != '\n',
    ensures
        split_lines(a + seq!['\n'] + b) == split_lines(a).push(b),
    decreases b.len(),
{
    let s = a + seq!['\n'] + b;
    if b.len() == 0 {
        assert(s.drop_last() =~= a);
        assert(s =~= a.push('\n'));
        assert(b =~= Seq::<char>::empty());
    } else {
        let b0 = b.drop_last();
        assert forall|i: int| 0 <= i < b0.len() implies b0[i] != '\n' by {
            assert(b0[i] == b[i]);
        }
        lemma_split_lines_append_line(a, b0);
        assert(s.drop_last() =~= a + seq!['\n'] + b0);
        assert(s.last() == b.last());
        lemma_split_lines_nonempty(a);
        let prev = split_lines(a + seq!['\n'] + b0);
        assert(prev == split_lines(a).push(b0));
        assert(b0.push(b.last()) =~= b);
        assert(prev.update(prev.len() - 1, prev.last().push(b.last())) =~= split_lines(a).push(b));
    }
}

/// Reading a `.env` file goes line by line: appending one more line (text
/// without a newline) after a newline changes the map exactly as that line
/// says — a `KEY=VALUE` line sets the key, replacing any earlier value, and
/// a blank, comment or malformed line changes nothing.
pub proof fn appended_line_updates_map(a: Seq<char>, line: Seq<char>)
    requires
        forall|i: int| 0 <= i < line.len() ==> line[i] != '\n',
    ensures
        dotenv_spec(a + seq!['\n'] + line) == match line_entry(line) {
            Some(kv) => dotenv_spec(a).insert(kv.0, kv.1),
            None => dotenv_spec(a),
        },
{
    lemma_split_lines_append_line(a, line);
    assert(split_lines(a).push(line).drop_last() =~= split_lines(a));
}

/// A later definition of a key wins: after a line that sets `key` to
/// `value`, the file maps `key` to `value` whatever came before.
pub proof fn later_definition_wins(a: Seq<char>, line: Seq<char>, key: Seq<char>, value: Seq<char>)
    requires
        forall|i: int| 0 <= i < line.len() ==> line[i] != '\n',
        line_entry(line) == Some((key, value)),
    ensures
        dotenv_spec(a + seq!['\n'] + line).contains_key(key),
        dotenv_spec(a + seq!['\n'] + line)[key] == value,
{
    appended_line_updates_map(a, line);
}

/// A comment line (one whose trimmed text starts with `#`) defines nothing,
/// even when it contains `=`.
pub proof fn comment_line_is_ignored(a: Seq<char>, line: Seq<char>)
    requires
        forall|i: int| 0 <= i < line.len() ==> line[i] != '\n',
        trim(line).len() > 0,
        trim(line)[0] == '#',
    ensures
        dotenv_spec(a + seq!['\n'] + line) == dotenv_spec(a),
{
    appended_line_updates_map(a, line);
}

/// The value that the secrets files give: the trimmed content of the
/// first location that was read, in order; `None` when none was read.
pub open spec fn first_secret_spec(reads: Seq<Option<Seq<char>>>) -> Option<Seq<char>>
    decreases reads.len(),
{
    if reads.len() == 0 {
        None
    } else if reads[0] is Some {
        Some(trim(reads[0]->0))
    } else {
        first_secret_spec(reads.drop_first())
    }
}

/// The value of a key in its secrets files.  `reads` holds, for each
/// location in order of priority (`/run/secrets/<key>`, then
/// `secrets/<key>`), the file's content, or `None` when the location is not
/// a file or cannot be read, in which case the next location is tried.
pub fn first_secret(reads: &Vec<Option<String>>) -> (r: Option<String>)
    ensures
        opt_text(r) == first_secret_spec(reads@.map_values(|o: Option<String>| opt_text(o))),
{
    let ghost texts = reads@.map_values(|o: Option<String>| opt_text(o));
    assert(texts.skip(0) =~= texts);
    let mut i: usize = 0;
    while i < reads.len()
        invariant
            i <= reads.len(),
            texts == reads@.map_values(|o: Option<String>| opt_text(o)),
            first_secret_spec(texts) == first_secret_spec(texts.skip(i as int)),
        decreases reads.len() - i,
    {
        proof {
            assert(texts.skip(i as int).drop_first() =~= texts.skip(i + 1));
            assert(texts.skip(i as int)[0] == texts[i as int]);
        }
        if let Some(content) = &reads[i] {
            return Some(trim_str(content.as_str()));
        }
        i = i + 1;
    }
    proof {
        assert(texts.skip(i as int) =~= Seq::<Option<Seq<char>>>::empty());
    }
    None
}

/// The full lookup order: the `/run/secrets/<key>` file, then the
/// `secrets/<key>` file (each trimmed), then the environment, then `.env`;
/// the first that has a value wins.
pub proof fn lookup_order(
    run_secret: Option<Seq<char>>,
    local_secret: Option<Seq<char>>,
    env: Option<Seq<char>>,
    dotenv: Option<Seq<char>>,
)
    ensures
        first_found(first_secret_spec(seq![run_secret, local_secret]), env, dotenv) == if run_secret is Some {
            Some(trim(run_secret->0))
        } else if local_secret is Some {
            Some(trim(local_secret->0))
        } else if env is Some {
            env
        } else {
            dotenv
        },
{
    let reads = seq![run_secret, local_secret];
    assert(reads.drop_first() =~= seq![local_secret]);
    assert(reads.drop_first().drop_first() =~= Seq::<Option<Seq<char>>>::empty());
    assert(reads[0] == run_secret);
    assert(reads.drop_first()[0] == local_secret);
    assert(first_secret_spec(reads.drop_first().drop_first()) is None);
    assert(first_secret_spec(reads.drop_first()) == if local_secret is Some {
        Some(trim(local_secret->0))
    } else {
        None::<Seq<char>>
    });
}

/// The secrets locations after the first one that was read do not
/// matter, so reading can stop there.
pub proof fn later_locations_do_not_matter(reads: Seq<Option<Seq<char>>>, i: int)
    requires
        0 <= i < reads.len(),
        reads[i] is Some,
        forall|j: int| 0 <= j < i ==> reads[j] is None,
    ensures
        first_secret_spec(reads.take(i + 1)) == first_secret_spec(reads),
    decreases i,
{
    if i > 0 {
        let rest = reads.drop_first();
        assert forall|j: int| 0 <= j < i - 1 implies rest[j] is None by {
            assert(rest[j] == reads[j + 1]);
        }
        later_locations_do_not_matter(rest, i - 1);
        assert(reads.take(i + 1).drop_first() =~= rest.take(i));
        assert(reads.take(i + 1)[0] == reads[0]);
    }
}

/// A configuration value read as the wanted type, or `default` when the key
/// is missing or its text does not stand for a value of that type.
pub fn value_or_default<T>(read: Option<T>, default: T) -> (r: T)
    ensures
        r == match read {
            Some(v) => v,
            None => default,
        },
{
    match read {
        Some(v) => v,
        None => default,
    }
}

/// Text with no white space at either end is its own trim.
proof fn lemma_trimmed_is_fixed(s: Seq<char>)
    requires
        s.len() > 0 ==> !is_space(s[0]) && !is_space(s.last()),
    ensures
        trim(s) == s,
{
    assert(trim_start(s) == s);
    assert(trim_end(s) == s);
}

/// The entry that a line `key=value` defines, when neither part has white
/// space at its ends, the key is not empty, holds no `=` and does not start
/// with `#`: exactly `key` and `value`, whatever `value` holds (`#` and `=`
/// included).
proof fn lemma_key_value_line(key: Seq<char>, value: Seq<char>)
    requires
        key.len() > 0,
        !is_space(key[0]),
        !is_space(key.last()),
        key[0] != '#',
        forall|i: int| 0 <= i < key.len() ==> key[i] != '=',
        value.len() > 0 ==> !is_space(value[0]) && !is_space(value.last()),
    ensures
        line_entry(key + seq!['='] + value) == Some((key, value)),
{
    let line = key + seq!['='] + value;
    let n = key.len() as int;
    assert(line[0] == key[0]);
    assert(!is_space('='));
    if value.len() > 0 {
        assert(line.last() == value.last());
    } else {
        assert(line.last() == '=');
    }
    lemma_trimmed_is_fixed(line);
    assert(line[n] == '=');
    assert forall|j: int| 0 <= j < n implies line[j] != '=' by {
        assert(line[j] == key[j]);
    }
    assert(is_first_eq(line, n));
    let i = choose|i: int| is_first_eq(line, i);
    if i < n {
        assert(line[i] == key[i]);
    }
    if n < i {
        assert(line[n] != '=');
    }
    assert(i == n);
    assert(line.take(n) =~= key);
    assert(line.skip(n + 1) =~= value);
    lemma_trimmed_is_fixed(key);
    lemma_trimmed_is_fixed(value);
}

proof fn lemma_split_single_line(line: Seq<char>)
    requires
        forall|i: int| 0 <= i < line.len() ==> line[i] != '\n',
    ensures
        split_lines(line) == seq![line],
    decreases line.len(),
{
    if line.len() > 0 {
        let l0 = line.drop_last();
        assert forall|i: int| 0 <= i < l0.len() implies l0[i] != '\n' by {
            assert(l0[i] == line[i]);
        }
        lemma_split_single_line(l0);
        assert(l0.push(line.last()) =~= line);
        assert(line.drop_last() =~= l0);
        assert(seq![l0].update(0, l0.push(line.last())) =~= seq![line]);
    } else {
        assert(line =~= Seq::<char>::empty());
    }
}

/// A line `key=value` sets `key` to exactly `value`, whatever `value`
/// holds (`#` and `=` included): only whole lines starting with `#` are
/// comments, and the value is everything after the first `=`.  This holds
/// for the line after any earlier text, and for a file of that line alone.
/// (Neither part has white space at its ends; the key is not empty, holds
/// no `=` and does not start with `#`; no part holds a newline.)
pub proof fn key_value_line_sets_value(earlier: Seq<char>, key: Seq<char>, value: Seq<char>)
    requires
        key.len() > 0,
        !is_space(key[0]),
        !is_space(key.last()),
        key[0] != '#',
        forall|i: int| 0 <= i < key.len() ==> key[i] != '=',
        value.len() > 0 ==> !is_space(value[0]) && !is_space(value.last()),
        forall|i: int| 0 <= i < key.len() ==> key[i] != '\n',
        forall|i: int| 0 <= i < value.len() ==> value[i] != '\n',
    ensures
        dotenv_spec(earlier + seq!['\n'] + key + seq!['='] + value).contains_key(key),
        dotenv_spec(earlier + seq!['\n'] + key + seq!['='] + value)[key] == value,
        dotenv_spec(key + seq!['='] + value) == Map::<Seq<char>, Seq<char>>::empty().insert(
            key,
            value,
        ),
{
    let line = key + seq!['='] + value;
    lemma_key_value_line(key, value);
    assert forall|i: int| 0 <= i < line.len() implies line[i] != '\n' by {
        if i < key.len() {
            assert(line[i] == key[i]);
        } else if i > key.len() {
            assert(line[i] == value[i - key.len() - 1]);
        }
    }
    appended_line_updates_map(earlier, line);
    assert(earlier + seq!['\n'] + key + seq!['='] + value =~= earlier + seq!['\n'] + line);
    lemma_split_single_line(line);
    assert(seq![line].drop_last() =~= Seq::<Seq<char>>::empty());
    assert(seq![line].last() == line);
    assert(lines_map(Seq::<Seq<char>>::empty()) == Map::<Seq<char>, Seq<char>>::empty());
    assert(lines_map(seq![line]) == lines_map(seq![line].drop_last()).insert(key, value));
}

} // verus!
