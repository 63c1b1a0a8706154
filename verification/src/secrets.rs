//! The `secrets.yaml` importer: a flat YAML map of names to values, where every
//! value becomes a string. The YAML text is parsed with `serde_yaml` into a
//! [`YamlDocument`]; the verified rules below decide what the secrets are.
use vstd::prelude::*;

verus! {

/// What a YAML node is, as far as the importer reads it.
#[derive(Debug)]
pub enum YamlKind {
    Null,
    Bool(bool),
    /// A number, with its canonical text.
    Number(String),
    String(String),
    /// Any other node (sequence, mapping, tagged value), with its YAML
    /// serialization when it could be serialized.
    Other(Option<String>),
}

/// A YAML node: its kind and its debug rendering.
#[derive(Debug)]
pub struct YamlNode {
    pub kind: YamlKind,
    pub debug: String,
}

/// The parsed `secrets.yaml` document.
#[derive(Debug)]
pub enum YamlDocument {
    /// The text is not well-formed YAML; where the parser stopped (0 when unknown).
    Malformed { line: usize, column: usize },
    /// The root is a mapping; its entries in document order.
    Mapping(Vec<(YamlNode, YamlNode)>),
    /// The root is something other than a mapping.
    NotMapping,
}

/// Why `secrets.yaml` was refused. Neither variant carries any secret value.
#[derive(Debug, Clone, PartialEq, Eq)]
pub enum SecretsError {
    /// Malformed YAML: the path and the location only.
    Malformed { path: String, line: usize, column: usize },
    /// The root is not a mapping.
    NotMapping { path: String },
}

/// The decimal digit of `d`, for `d` below 10.
pub open spec fn decimal_digit(d: nat) -> char {
    (d + 48) as char
}

/// `n` in decimal, without leading zeros.
pub open spec fn decimal(n: nat) -> Seq<char>
    decreases n,
{
    if n < 10 {
        seq![decimal_digit(n)]
    } else {
        decimal(n / 10).push(decimal_digit(n % 10))
    }
}

/// What an error says: the path and, for malformed YAML, the location, and no value.
pub open spec fn error_message(e: SecretsError) -> Seq<char> {
    match e {
        SecretsError::Malformed { path, line, column } => "secrets.yaml parse error in "@ + path@
            + " (line "@ + decimal(line as nat) + ", column "@ + decimal(column as nat)
            + "): malformed YAML (value content redacted)"@,
        SecretsError::NotMapping { path } => "missing required field '<root mapping>' in "@
            + path@,
    }
}

fn decimal_digit_str(d: usize) -> (s: &'static str)
    requires
        d < 10,
    ensures
        s@ == seq![decimal_digit(d as nat)],
{
    let s = match d {
        0 => "0",
        1 => "1",
        2 => "2",
        3 => "3",
        4 => "4",
        5 => "5",
        6 => "6",
        7 => "7",
        8 => "8",
        _ => "9",
    };
    proof {
        reveal_strlit("0");
        reveal_strlit("1");
        reveal_strlit("2");
        reveal_strlit("3");
        reveal_strlit("4");
        reveal_strlit("5");
        reveal_strlit("6");
        reveal_strlit("7");
        reveal_strlit("8");
        reveal_strlit("9");
    }
    assert(s@ =~= seq![decimal_digit(d as nat)]);
    s
}

/// `n` in decimal.
fn decimal_string(n: usize) -> (s: String)
    ensures
        s@ == decimal(n as nat),
    decreases n,
{
    if n < 10 {
        String::from_str(decimal_digit_str(n))
    } else {
        let mut s = decimal_string(n / 10);
        s.append(decimal_digit_str(n % 10));
        assert(s@ =~= decimal(n as nat));
        s
    }
}

impl SecretsError {
    /// The error's text: the path and, for malformed YAML, the line and column.
    /// No secret value appears in it.
    pub fn message(&self) -> (s: String)
        ensures
            s@ == error_message(*self),
    {
        match self {
            SecretsError::Malformed { path, line, column } => {
                let mut s = String::from_str("secrets.yaml parse error in ");
                s.append(path.as_str());
                s.append(" (line ");
                s.append(decimal_string(*line).as_str());
                s.append(", column ");
                s.append(decimal_string(*column).as_str());
                s.append("): malformed YAML (value content redacted)");
                s
            },
            SecretsError::NotMapping { path } => {
                let mut s = String::from_str("missing required field '<root mapping>' in ");
                s.append(path.as_str());
                s
            },
        }
    }
}

/// Whether `c` has the Unicode property White_Space.
pub open spec fn is_white_space(c: char) -> bool {
    let u = c as u32;
    ||| 0x9 <= u <= 0xd
    ||| u == 0x20
    ||| u == 0x85
    ||| u == 0xa0
    ||| u == 0x1680
    ||| 0x2000 <= u <= 0x200a
    ||| u == 0x2028
    ||| u == 0x2029
    ||| u == 0x202f
    ||| u == 0x205f
    ||| u == 0x3000
}

/// `s` without its leading white space.
pub open spec fn trim_start(s: Seq<char>) -> Seq<char>
    decreases s.len(),
{
    if s.len() > 0 && is_white_space(s[0]) {
        trim_start(s.drop_first())
    } else {
        s
    }
}

/// `s` without its trailing white space.
pub open spec fn trim_end(s: Seq<char>) -> Seq<char>
    decreases s.len(),
{
    if s.len() > 0 && is_white_space(s.last()) {
        trim_end(s.drop_last())
    } else {
        s
    }
}

/// `s` without its leading and trailing white space.
pub open spec fn trimmed(s: Seq<char>) -> Seq<char> {
    trim_end(trim_start(s))
}

/// Calls `str::trim`, which returns the slice of `s` without its leading and
/// trailing whitespace, whitespace being what has the Unicode property White_Space.
#[verifier::external_body]
fn str_trim(s: &str) -> (r: &str)
    ensures
        r@ == trimmed(s@),
{
    s.trim()
}

/// The name a key becomes: a string key is itself, any other key its debug rendering.
pub open spec fn key_text(n: YamlNode) -> Seq<char> {
    match n.kind {
        YamlKind::String(s) => s@,
        _ => n.debug@,
    }
}

/// The string a value becomes.
pub open spec fn value_text(n: YamlNode) -> Seq<char> {
    match n.kind {
        YamlKind::String(s) => s@,
        YamlKind::Number(t) => t@,
        YamlKind::Bool(b) => if b {
            "true"@
        } else {
            "false"@
        },
        YamlKind::Null => Seq::empty(),
        YamlKind::Other(y) => trimmed(
            match y {
                Some(t) => t@,
                None => "<unparseable>"@,
            },
        ),
    }
}

/// No name occurs twice.
pub open spec fn keys_distinct(es: Seq<(Seq<char>, Seq<char>)>) -> bool {
    forall|i: int, j: int| 0 <= i < j < es.len() ==> #[trigger] es[i].0 != #[trigger] es[j].0
}

/// Whether `k` is one of the names.
pub open spec fn has_key(es: Seq<(Seq<char>, Seq<char>)>, k: Seq<char>) -> bool {
    exists|i: int| 0 <= i < es.len() && #[trigger] es[i].0 == k
}

/// Setting `k` to `v`: replaces the value of an existing name, else adds the pair.
pub open spec fn upsert(es: Seq<(Seq<char>, Seq<char>)>, k: Seq<char>, v: Seq<char>) -> Seq<
    (Seq<char>, Seq<char>),
> {
    if has_key(es, k) {
        es.update(choose|i: int| 0 <= i < es.len() && #[trigger] es[i].0 == k, (k, v))
    } else {
        es.push((k, v))
    }
}

/// The value of name `k`, if present.
pub open spec fn lookup(es: Seq<(Seq<char>, Seq<char>)>, k: Seq<char>) -> Option<Seq<char>> {
    if has_key(es, k) {
        Some(es[choose|i: int| 0 <= i < es.len() && #[trigger] es[i].0 == k].1)
    } else {
        None
    }
}

/// The secrets that a mapping's entries give, later entries overriding earlier ones.
pub open spec fn secrets_of(entries: Seq<(YamlNode, YamlNode)>) -> Seq<(Seq<char>, Seq<char>)>
    decreases entries.len(),
{
    if entries.len() == 0 {
        Seq::empty()
    } else {
        upsert(
            secrets_of(entries.drop_last()),
            key_text(entries.last().0),
            value_text(entries.last().1),
        )
    }
}

/// A map from secret names to values.
#[derive(Debug)]
pub struct SecretMap {
    entries: Vec<(String, String)>,
}

pub open spec fn pair_view(e: (String, String)) -> (Seq<char>, Seq<char>) {
    (e.0@, e.1@)
}

impl View for SecretMap {
    type V = Seq<(Seq<char>, Seq<char>)>;

    closed spec fn view(&self) -> Seq<(Seq<char>, Seq<char>)> {
        self.entries@.map_values(|e: (String, String)| pair_view(e))
    }
}

impl SecretMap {
    #[verifier::type_invariant]
    spec fn names_are_unique(self) -> bool {
        keys_distinct(self.entries@.map_values(|e: (String, String)| pair_view(e)))
    }

    /// An empty map.
    pub fn new() -> (m: SecretMap)
        ensures
            m@ == Seq::<(Seq<char>, Seq<char>)>::empty(),
    {
        let m = SecretMap { entries: Vec::new() };
        assert(m@ =~= Seq::<(Seq<char>, Seq<char>)>::empty());
        m
    }

    /// The position of name `key`, if present.
    fn position(&self, key: &String) -> (r: Option<usize>)
        ensures
            match r {
                Some(i) => i < self@.len() && self@[i as int].0 == key@,
                None => !has_key(self@, key@),
            },
    {
        let n = self.entries.len();
        let mut i: usize = 0;
        while i < n
            invariant
                i <= n,
                n == self.entries@.len(),
                self@ == self.entries@.map_values(|e: (String, String)| pair_view(e)),
                forall|j: int| 0 <= j < i ==> #[trigger] self@[j].0 != key@,
            decreases n - i,
        {
            if self.entries[i].0 == *key {
                return Some(i);
            }
            i = i + 1;
        }
        None
    }

    /// Sets `key` to `value`, replacing any earlier value.
    pub fn insert(&mut self, key: String, value: String)
        ensures
            final(self)@ == upsert(old(self)@, key@, value@),
    {
        proof {
            use_type_invariant(&*self);
        }
        let ghost old_view = self@;
        match self.position(&key) {
            Some(i) => {
                proof {
                    let c = choose|j: int| 0 <= j < old_view.len() && #[trigger] old_view[j].0 == key@;
                    assert(old_view[i as int].0 == key@);
                    assert(c == i);
                }
                let mut entries: Vec<(String, String)> = Vec::new();
                std::mem::swap(&mut entries, &mut self.entries);
                entries.set(i, (key, value));
                proof {
                    let nv = entries@.map_values(|e: (String, String)| pair_view(e));
                    assert(nv =~= upsert(old_view, key@, value@));
                    assert forall|a: int, b: int| 0 <= a < b < nv.len() implies #[trigger] nv[a].0
                        != #[trigger] nv[b].0 by {
                        assert(nv[a].0 == old_view[a].0);
                        assert(nv[b].0 == old_view[b].0);
                    }
                }
                self.entries = entries;
                assert(self@ =~= upsert(old_view, key@, value@));
            },
            None => {
                let mut entries: Vec<(String, String)> = Vec::new();
                std::mem::swap(&mut entries, &mut self.entries);
                entries.push((key, value));
                proof {
                    let nv = entries@.map_values(|e: (String, String)| pair_view(e));
                    assert(nv =~= upsert(old_view, key@, value@));
                    assert forall|a: int, b: int| 0 <= a < b < nv.len() implies #[trigger] nv[a].0
                        != #[trigger] nv[b].0 by {
                        if b == nv.len() - 1 {
                            assert(old_view[a].0 == nv[a].0);
                        }
                    }
                }
                self.entries = entries;
                assert(self@ =~= upsert(old_view, key@, value@));
            },
        }
    }

    /// The value of name `key`.
    pub fn get(&self, key: &str) -> (r: Option<&String>)
        ensures
            match r {
                Some(v) => lookup(self@, key@) == Some(v@),
                None => lookup(self@, key@) is None,
            },
    {
        proof {
            use_type_invariant(self);
        }
        let k = String::from_str(key);
        match self.position(&k) {
            Some(i) => {
                proof {
                    let c = choose|j: int| 0 <= j < self@.len() && #[trigger] self@[j].0 == key@;
                    assert(self@[i as int].0 == key@);
                    assert(c == i);
                }
                Some(&self.entries[i].1)
            },
            None => None,
        }
    }

    /// Number of names.
    pub fn len(&self) -> (n: usize)
        ensures
            n == self@.len(),
    {
        self.entries.len()
    }

    /// Whether there are no names.
    pub fn is_empty(&self) -> (b: bool)
        ensures
            b == (self@.len() == 0),
    {
        self.entries.len() == 0
    }

    /// The name and value pairs.
    pub fn into_pairs(self) -> (v: Vec<(String, String)>)
        ensures
            v@.map_values(|e: (String, String)| pair_view(e)) == self@,
            keys_distinct(self@),
    {
        proof {
            use_type_invariant(&self);
        }
        self.entries
    }
}


/// The string a value becomes.
fn value_string(n: &YamlNode) -> (r: String)
    ensures
        r@ == value_text(*n),
{
    match &n.kind {
        YamlKind::String(s) => s.clone(),
        YamlKind::Number(t) => t.clone(),
        YamlKind::Bool(b) => {
            if *b {
                String::from_str("true")
            } else {
                String::from_str("false")
            }
        },
        YamlKind::Null => String::new(),
        YamlKind::Other(y) => {
            let text: &str = match y {
                Some(t) => t.as_str(),
                None => "<unparseable>",
            };
            String::from_str(str_trim(text))
        },
    }
}

/// The name a key becomes.
fn key_string(n: &YamlNode) -> (r: String)
    ensures
        r@ == key_text(*n),
{
    match &n.kind {
        YamlKind::String(s) => s.clone(),
        _ => n.debug.clone(),
    }
}

/// Whether `raw` holds nothing but whitespace.
pub fn is_blank(raw: &str) -> (b: bool)
    ensures
        b == (trimmed(raw@).len() == 0),
{
    str_trim(raw).is_empty()
}

/// The secrets of `secrets.yaml`, read from `path` as `raw` and parsed into `doc`.
///
/// Blank text gives no secrets (the document is not looked at). Otherwise
/// malformed YAML is refused with its location only, a root that is not a
/// mapping is refused, and a mapping gives one secret per distinct name, later
/// entries overriding earlier ones.
pub fn secrets_from_yaml(path: &str, raw: &str, doc: YamlDocument) -> (r: Result<
    SecretMap,
    SecretsError,
>)
    ensures
        trimmed(raw@).len() == 0 ==> (r matches Ok(m) && m@.len() == 0),
        trimmed(raw@).len() != 0 ==> match doc {
            YamlDocument::Malformed { line, column } => (r matches Err(
                SecretsError::Malformed { path: p, line: l, column: c },
            ) && p@ == path@ && l == line && c == column),
            YamlDocument::NotMapping => (r matches Err(SecretsError::NotMapping { path: p })
                && p@ == path@),
            YamlDocument::Mapping(es) => (r matches Ok(m) && m@ == secrets_of(es@)),
        },
{
    if is_blank(raw) {
        return Ok(SecretMap::new());
    }
    match doc {
        YamlDocument::Malformed { line, column } => Err(
            SecretsError::Malformed { path: String::from_str(path), line, column },
        ),
        YamlDocument::NotMapping => Err(SecretsError::NotMapping { path: String::from_str(path) }),
        YamlDocument::Mapping(es) => {
            let mut m = SecretMap::new();
            let n = es.len();
            let mut i: usize = 0;
            while i < n
                invariant
                    i <= n,
                    n == es@.len(),
                    m@ == secrets_of(es@.take(i as int)),
                decreases n - i,
            {
                let k = key_string(&es[i].0);
                let v = value_string(&es[i].1);
                m.insert(k, v);
                assert(es@.take(i + 1).drop_last() =~= es@.take(i as int));
                i = i + 1;
            }
            assert(es@.take(n as int) =~= es@);
            Ok(m)
        },
    }
}


/// Setting a name keeps names unique, and afterwards the name holds the new value.
pub proof fn lemma_upsert(es: Seq<(Seq<char>, Seq<char>)>, k: Seq<char>, v: Seq<char>)
    requires
        keys_distinct(es),
    ensures
        keys_distinct(upsert(es, k, v)),
        lookup(upsert(es, k, v), k) == Some(v),
        forall|k2: Seq<char>| k2 != k ==> lookup(upsert(es, k, v), k2) == lookup(es, k2),
        forall|k2: Seq<char>| #[trigger] has_key(upsert(es, k, v), k2) <==> has_key(es, k2) || k2
            == k,
{
    let u = upsert(es, k, v);
    if has_key(es, k) {
        let i = choose|i: int| 0 <= i < es.len() && #[trigger] es[i].0 == k;
        assert forall|a: int, b: int| 0 <= a < b < u.len() implies #[trigger] u[a].0
            != #[trigger] u[b].0 by {
            assert(u[a].0 == es[a].0 && u[b].0 == es[b].0);
        }
        assert(u[i].0 == k);
        let j = choose|j: int| 0 <= j < u.len() && #[trigger] u[j].0 == k;
        assert(j == i);
        assert forall|k2: Seq<char>| k2 != k implies lookup(u, k2) == lookup(es, k2) by {
            if has_key(es, k2) {
                let a = choose|a: int| 0 <= a < es.len() && #[trigger] es[a].0 == k2;
                assert(u[a].0 == k2);
                let b = choose|b: int| 0 <= b < u.len() && #[trigger] u[b].0 == k2;
                assert(es[b].0 == k2);
            } else {
                if has_key(u, k2) {
                    let b = choose|b: int| 0 <= b < u.len() && #[trigger] u[b].0 == k2;
                    assert(es[b].0 == k2);
                }
            }
        }
        assert forall|k2: Seq<char>| #[trigger] has_key(u, k2) <==> has_key(es, k2) || k2 == k by {
            if has_key(es, k2) {
                let a = choose|a: int| 0 <= a < es.len() && #[trigger] es[a].0 == k2;
                assert(u[a].0 == k2);
            }
            if has_key(u, k2) {
                let b = choose|b: int| 0 <= b < u.len() && #[trigger] u[b].0 == k2;
                assert(es[b].0 == k2 || b == i);
            }
        }
    } else {
        assert forall|a: int, b: int| 0 <= a < b < u.len() implies #[trigger] u[a].0
            != #[trigger] u[b].0 by {
            if b == es.len() {
                assert(es[a].0 == u[a].0);
            }
        }
        assert(u[es.len() as int].0 == k);
        let j = choose|j: int| 0 <= j < u.len() && #[trigger] u[j].0 == k;
        assert(j == es.len());
        assert forall|k2: Seq<char>| k2 != k implies lookup(u, k2) == lookup(es, k2) by {
            if has_key(es, k2) {
                let a = choose|a: int| 0 <= a < es.len() && #[trigger] es[a].0 == k2;
                assert(u[a].0 == k2);
                let b = choose|b: int| 0 <= b < u.len() && #[trigger] u[b].0 == k2;
                assert(b < es.len());
                assert(es[b].0 == k2);
            } else {
                if has_key(u, k2) {
                    let b = choose|b: int| 0 <= b < u.len() && #[trigger] u[b].0 == k2;
                    assert(es[b].0 == k2);
                }
            }
        }
        assert forall|k2: Seq<char>| #[trigger] has_key(u, k2) <==> has_key(es, k2) || k2 == k by {
            if has_key(es, k2) {
                let a = choose|a: int| 0 <= a < es.len() && #[trigger] es[a].0 == k2;
                assert(u[a].0 == k2);
            }
            if has_key(u, k2) {
                let b = choose|b: int| 0 <= b < u.len() && #[trigger] u[b].0 == k2;
                if b < es.len() {
                    assert(es[b].0 == k2);
                }
            }
        }
    }
}

/// Values are kept as strings, verbatim: the last entry for a name gives its value,
/// a string as it stands (white space included), a number as its text, a boolean
/// as "true" or "false", and null as the empty string; a string key is the name
/// as it stands.
pub proof fn law_values_verbatim(entries: Seq<(YamlNode, YamlNode)>, i: int)
    requires
        0 <= i < entries.len(),
        forall|j: int| i < j < entries.len() ==> key_text(#[trigger] entries[j].0) != key_text(
            entries[i].0,
        ),
    ensures
        entries[i].0.kind matches YamlKind::String(k) ==> key_text(entries[i].0) == k@,
        ({
            let v = lookup(secrets_of(entries), key_text(entries[i].0));
            &&& entries[i].1.kind matches YamlKind::String(t) ==> v == Some(t@)
            &&& entries[i].1.kind matches YamlKind::Number(t) ==> v == Some(t@)
            &&& entries[i].1.kind == YamlKind::Bool(true) ==> v == Some("true"@)
            &&& entries[i].1.kind == YamlKind::Bool(false) ==> v == Some("false"@)
            &&& entries[i].1.kind == YamlKind::Null ==> v == Some(Seq::<char>::empty())
        }),
{
    law_last_entry_wins(entries, i);
}

/// Secret names are unique, and a name is present exactly when some entry's key
/// becomes it.
pub proof fn law_secret_names(entries: Seq<(YamlNode, YamlNode)>)
    ensures
        keys_distinct(secrets_of(entries)),
        forall|k: Seq<char>|
            #[trigger] has_key(secrets_of(entries), k) <==> exists|i: int|
                0 <= i < entries.len() && key_text(#[trigger] entries[i].0) == k,
    decreases entries.len(),
{
    if entries.len() > 0 {
        let p = entries.drop_last();
        law_secret_names(p);
        let k0 = key_text(entries.last().0);
        lemma_upsert(secrets_of(p), k0, value_text(entries.last().1));
        assert forall|k: Seq<char>|
            #[trigger] has_key(secrets_of(entries), k) <==> exists|i: int|
                0 <= i < entries.len() && key_text(#[trigger] entries[i].0) == k by {
            if has_key(secrets_of(entries), k) {
                if k == k0 {
                    assert(key_text(entries[entries.len() - 1].0) == k);
                } else {
                    let i = choose|i: int| 0 <= i < p.len() && key_text(#[trigger] p[i].0) == k;
                    assert(entries[i] == p[i]);
                }
            }
            if exists|i: int| 0 <= i < entries.len() && key_text(#[trigger] entries[i].0) == k {
                let i = choose|i: int| 0 <= i < entries.len() && key_text(#[trigger] entries[i].0) == k;
                if i < p.len() {
                    assert(p[i] == entries[i]);
                }
            }
        }
    } else {
        assert forall|k: Seq<char>| !has_key(secrets_of(entries), k) by {}
    }
}

/// The last entry wins: each name holds the value of the last entry whose key
/// becomes that name.
pub proof fn law_last_entry_wins(entries: Seq<(YamlNode, YamlNode)>, i: int)
    requires
        0 <= i < entries.len(),
        forall|j: int| i < j < entries.len() ==> key_text(#[trigger] entries[j].0) != key_text(
            entries[i].0,
        ),
    ensures
        lookup(secrets_of(entries), key_text(entries[i].0)) == Some(value_text(entries[i].1)),
    decreases entries.len(),
{
    let p = entries.drop_last();
    law_secret_names(p);
    let k0 = key_text(entries.last().0);
    lemma_upsert(secrets_of(p), k0, value_text(entries.last().1));
    if i < entries.len() - 1 {
        assert forall|j: int| i < j < p.len() implies key_text(#[trigger] p[j].0) != key_text(
            p[i].0,
        ) by {
            assert(p[j] == entries[j]);
        }
        law_last_entry_wins(p, i);
        assert(p[i] == entries[i]);
    }
}


#[verifier::external_type_specification]
#[verifier::external_body]
pub struct ExYamlMapping(serde_yaml::Mapping);

/// What `serde_yaml` makes of a text, as the importer reads it.
pub enum YamlParse {
    /// The text is not well-formed YAML; the parser's location of the fault, if it gives one.
    Malformed(Option<(usize, usize)>),
    /// The root is a mapping; its entries in document order.
    Mapping(Seq<(YamlNode, YamlNode)>),
    /// The root is something other than a mapping.
    NotMapping,
}

/// What `serde_yaml::from_str::<serde_yaml::Value>` makes of the text `raw`.
pub uninterp spec fn yaml_parse(raw: Seq<char>) -> YamlParse;

/// The entries of a `serde_yaml::Mapping` in its order, each key and value as a node.
pub uninterp spec fn mapping_entries(m: serde_yaml::Mapping) -> Seq<(YamlNode, YamlNode)>;

/// The root of a parsed text, with a mapping still held by `serde_yaml`.
enum YamlRoot {
    Malformed(Option<(usize, usize)>),
    Mapping(serde_yaml::Mapping),
    NotMapping,
}

/// Calls `serde_yaml::from_str::<serde_yaml::Value>` on `raw`. An error becomes
/// the line and column of its `location()`, when it has one (its message, which
/// can quote the text, is dropped); a `Value::Mapping` is handed out whole, and
/// any other value becomes `NotMapping`. The outcome is named `yaml_parse(raw)`,
/// with a mapping's entries named `mapping_entries`; what the parser accepts is
/// not stated.
#[verifier::external_body]
fn yaml_root(raw: &str) -> (r: YamlRoot)
    ensures
        yaml_parse(raw@) == match r {
            YamlRoot::Malformed(loc) => YamlParse::Malformed(loc),
            YamlRoot::Mapping(m) => YamlParse::Mapping(mapping_entries(m)),
            YamlRoot::NotMapping => YamlParse::NotMapping,
        },
{
    match serde_yaml::from_str::<serde_yaml::Value>(raw) {
        Err(e) => YamlRoot::Malformed(e.location().map(|l| (l.line(), l.column()))),
        Ok(serde_yaml::Value::Mapping(m)) => YamlRoot::Mapping(m),
        Ok(_) => YamlRoot::NotMapping,
    }
}

/// Calls `IntoIterator::into_iter` of `serde_yaml::Mapping`, which yields the
/// entries in the mapping's order, and hands each key and value out as a node:
/// its `Debug` rendering, and its variant with a number's `Display` text, a
/// string, a boolean, or, for any other value, its `serde_yaml::to_string` text
/// when that succeeds. The result is what `mapping_entries(m)` names.
#[verifier::external_body]
fn yaml_mapping_entries(m: serde_yaml::Mapping) -> (r: Vec<(YamlNode, YamlNode)>)
    ensures
        r@ == mapping_entries(m),
{
    let node = |v: serde_yaml::Value| {
        let debug = format!("{v:?}");
        let kind = match v {
            serde_yaml::Value::Null => YamlKind::Null,
            serde_yaml::Value::Bool(b) => YamlKind::Bool(b),
            serde_yaml::Value::Number(n) => YamlKind::Number(n.to_string()),
            serde_yaml::Value::String(s) => YamlKind::String(s),
            other => YamlKind::Other(serde_yaml::to_string(&other).ok()),
        };
        YamlNode { kind, debug }
    };
    m.into_iter().map(|(k, v)| (node(k), node(v))).collect()
}

/// The location reported for a parse fault: line 0, column 0 when the parser gives none.
pub open spec fn location_or_origin(loc: Option<(usize, usize)>) -> (usize, usize) {
    match loc {
        Some(lc) => lc,
        None => (0, 0),
    }
}

/// Document `d` is what the importer reads from parse `p`.
pub open spec fn reads_as(d: YamlDocument, p: YamlParse) -> bool {
    match p {
        YamlParse::Malformed(loc) => d matches YamlDocument::Malformed { line, column } && (
        line, column) == location_or_origin(loc),
        YamlParse::Mapping(es) => d matches YamlDocument::Mapping(v) && v@ == es,
        YamlParse::NotMapping => d is NotMapping,
    }
}

/// Parses YAML text into the document the importer reads. Of a parse failure
/// only the location is kept.
fn yaml_document(raw: &str) -> (d: YamlDocument)
    ensures
        reads_as(d, yaml_parse(raw@)),
{
    match yaml_root(raw) {
        YamlRoot::Malformed(loc) => {
            let (line, column) = match loc {
                Some(lc) => lc,
                None => (0, 0),
            };
            YamlDocument::Malformed { line, column }
        },
        YamlRoot::Mapping(m) => YamlDocument::Mapping(yaml_mapping_entries(m)),
        YamlRoot::NotMapping => YamlDocument::NotMapping,
    }
}

/// The secrets of `secrets.yaml` text `raw`, read from `path`: blank text gives
/// none; otherwise the text is parsed and [`secrets_from_yaml`] decides.
/// Errors name only the path and, for malformed YAML, the location.
pub fn parse_secrets(path: &str, raw: &str) -> (r: Result<SecretMap, SecretsError>)
    ensures
        trimmed(raw@).len() == 0 ==> (r matches Ok(m) && m@.len() == 0),
        trimmed(raw@).len() != 0 ==> match yaml_parse(raw@) {
            YamlParse::Malformed(loc) => (r matches Err(
                SecretsError::Malformed { path: p, line, column },
            ) && p@ == path@ && (line, column) == location_or_origin(loc)),
            YamlParse::NotMapping => (r matches Err(SecretsError::NotMapping { path: p })
                && p@ == path@),
            YamlParse::Mapping(es) => (r matches Ok(m) && m@ == secrets_of(es)),
        },
        r matches Ok(m) ==> keys_distinct(m@),
{
    if is_blank(raw) {
        return Ok(SecretMap::new());
    }
    let doc = yaml_document(raw);
    let r = secrets_from_yaml(path, raw, doc);
    match &r {
        Ok(m) => {
            proof {
                use_type_invariant(m);
            }
        },
        Err(_) => {},
    }
    r
}

} // verus!
