use vstd::prelude::*;

verus! {

/// Name for the 64-bit identity hash of a text, as std's default hasher
/// computes it.
pub uninterp spec fn identity_hash(s: Seq<char>) -> u64;

/// Relies on `BuildHasher::hash_one` over std's `DefaultHasher` built with
/// fixed keys: the hash depends on the text alone.
#[verifier::external_body]
fn default_hash(s: &str) -> (r: u64)
    ensures
        r == identity_hash(s@),
{
    std::hash::BuildHasher::hash_one(
        &std::hash::BuildHasherDefault::<std::collections::hash_map::DefaultHasher>::default(),
        s,
    )
}

/// The inode id of a remote object: a hash of its identity, so that the same
/// object maps to the same id in every run.
pub fn gen_inode(id: &str) -> (r: u64)
    ensures
        r == identity_hash(id@),
{
    default_hash(id)
}

/// The separator "://" starts at position `i` of `s`.
pub open spec fn sep_at(s: Seq<char>, i: int) -> bool {
    0 <= i && i + 3 <= s.len() && s[i] == ':' && s[i + 1] == '/' && s[i + 2] == '/'
}

/// `s` holds the separator "://" exactly once.
pub open spec fn single_sep(s: Seq<char>) -> bool {
    exists|i: int| #[trigger] sep_at(s, i) && (forall|j: int| #[trigger] sep_at(s, j) ==> j == i)
}

pub open spec fn sep_index(s: Seq<char>) -> int {
    choose|i: int| sep_at(s, i)
}

pub open spec fn is_colon_at(s: Seq<char>, k: int) -> bool {
    0 <= k < s.len() && s[k] == ':'
}

/// `k` is the position of the last ':' in `s`.
pub open spec fn is_last_colon(s: Seq<char>, k: int) -> bool {
    is_colon_at(s, k) && forall|m: int| k < m < s.len() ==> s[m] != ':'
}

pub open spec fn has_colon(s: Seq<char>) -> bool {
    exists|k: int| is_colon_at(s, k)
}

pub open spec fn last_colon(s: Seq<char>) -> int {
    choose|k: int| is_last_colon(s, k)
}

/// Splits what follows the separator into path and version at the last ':';
/// without a ':' the version is empty.
pub open spec fn split_version(r: Seq<char>) -> (Seq<char>, Seq<char>) {
    if has_colon(r) {
        (r.take(last_colon(r)), r.skip(last_colon(r) + 1))
    } else {
        (r, Seq::empty())
    }
}

/// What parsing a protocol path yields: scheme, path and version, or nothing
/// when the separator is missing or repeated.
pub open spec fn parse_spec(s: Seq<char>) -> Option<(Seq<char>, Seq<char>, Seq<char>)> {
    if single_sep(s) {
        let i = sep_index(s);
        let (p, v) = split_version(s.skip(i + 3));
        Some((s.take(i), p, v))
    } else {
        None
    }
}

/// The text of a protocol path: the ':' before the version is left out when
/// the version is empty.
pub open spec fn join_spec(scheme: Seq<char>, path: Seq<char>, version: Seq<char>) -> Seq<char> {
    if version.len() == 0 {
        scheme + seq![':', '/', '/'] + path
    } else {
        scheme + seq![':', '/', '/'] + path + seq![':'] + version
    }
}

pub open spec fn no_colon(s: Seq<char>) -> bool {
    forall|k: int| 0 <= k < s.len() ==> s[k] != ':'
}

/// A triple that a protocol path can be written from: no part holds ':', and
/// the version does not begin with '/'.
pub open spec fn well_formed_parts(scheme: Seq<char>, path: Seq<char>, version: Seq<char>) -> bool {
    &&& no_colon(scheme)
    &&& no_colon(path)
    &&& no_colon(version)
    &&& (version.len() > 0 ==> version[0] != '/')
}

#[derive(Debug, Clone, Copy, PartialEq, Eq)]
pub enum ParseError {
    InvalidFormat,
}

fn find_sep(s: &str, n: usize, from: usize) -> (r: Option<usize>)
    requires
        n == s@.len(),
        from <= n,
    ensures
        match r {
            Some(k) => from <= k && sep_at(s@, k as int) && forall|j: int|
                from <= j < k ==> !#[trigger] sep_at(s@, j),
            None => forall|j: int| from <= j ==> !#[trigger] sep_at(s@, j),
        },
{
    let mut i: usize = from;
    while i < n && n - i >= 3
        invariant
            n == s@.len(),
            from <= i <= n,
            forall|j: int| from <= j < i ==> !#[trigger] sep_at(s@, j),
        decreases n - i,
    {
        if s.get_char(i) == ':' && s.get_char(i + 1) == '/' && s.get_char(i + 2) == '/' {
            return Some(i);
        }
        i = i + 1;
    }
    None
}

/// Splits a protocol path `scheme://path[:version]` into its three parts.
pub fn parse_path(protocol_path: &str) -> (r: Result<(String, String, String), ParseError>)
    ensures
        match r {
            Ok((scheme, path, version)) => parse_spec(protocol_path@) == Some(
                (scheme@, path@, version@),
            ),
            Err(_) => parse_spec(protocol_path@) is None,
        },
{
    let ghost s = protocol_path@;
    let n = protocol_path.unicode_len();
    let first = find_sep(protocol_path, n, 0);
    let k = match first {
        None => {
            assert(!single_sep(s));
            return Err(ParseError::InvalidFormat);
        },
        Some(k) => k,
    };
    match find_sep(protocol_path, n, k + 1) {
        Some(k2) => {
            assert(sep_at(s, k as int) && sep_at(s, k2 as int));
            assert(!single_sep(s));
            return Err(ParseError::InvalidFormat);
        },
        None => {},
    }
    assert(forall|j: int| #[trigger] sep_at(s, j) ==> j == k);
    assert(single_sep(s));
    assert(sep_index(s) == k);
    let scheme = String::from_str(protocol_path.substring_char(0, k));
    let rest = protocol_path.substring_char(k + 3, n);
    let ghost rs = rest@;
    assert(rs == s.skip(k + 3));
    let m = n - (k + 3);
    let mut c: usize = m;
    let mut found = false;
    while c > 0 && !found
        invariant
            rs == rest@,
            m == rs.len(),
            c <= m,
            found ==> c > 0 && rs[c - 1] == ':',
            forall|j: int| c <= j < m ==> rs[j] != ':',
        decreases c + (if found { 0int } else { 1int }),
    {
        if rest.get_char(c - 1) == ':' {
            found = true;
        } else {
            c = c - 1;
        }
    }
    if !found {
        assert(!has_colon(rs));
        Ok((scheme, String::from_str(rest), String::new()))
    } else {
        let lc = c - 1;
        assert(is_last_colon(rs, lc as int));
        assert(last_colon(rs) == lc) by {
            let x = last_colon(rs);
            assert(is_last_colon(rs, x));
        }
        let path = String::from_str(rest.substring_char(0, lc));
        let version = String::from_str(rest.substring_char(lc + 1, m));
        Ok((scheme, path, version))
    }
}

/// Writing a well-formed triple as a protocol path and parsing it back gives
/// the same triple.
pub proof fn lemma_parse_join_round_trip(scheme: Seq<char>, path: Seq<char>, version: Seq<char>)
    requires
        well_formed_parts(scheme, path, version),
    ensures
        parse_spec(join_spec(scheme, path, version)) == Some((scheme, path, version)),
{
    let t = join_spec(scheme, path, version);
    let i0 = scheme.len() as int;
    let sep = seq![':', '/', '/'];
    let head = scheme + sep + path;
    assert(sep_at(t, i0));
    assert forall|j: int| #[trigger] sep_at(t, j) implies j == i0 by {
        if j == i0 {
        } else if j < i0 {
            assert(t[j] == scheme[j]);
        } else if i0 < j < i0 + 3 {
            assert(t[j] == '/');
        } else if i0 + 3 <= j < head.len() {
            assert(t[j] == path[j - i0 - 3]);
        } else if j > head.len() {
            assert(t[j] == version[j - head.len() - 1]);
        } else if version.len() == 0 {
            assert(t.len() == head.len());
        } else {
            assert(t =~= head + seq![':'] + version);
            assert(t[j + 1] == version[0]);
        }
    }
    assert(single_sep(t));
    assert(sep_index(t) == i0);
    let r = t.skip(i0 + 3);
    if version.len() == 0 {
        assert(r =~= path);
        assert(!has_colon(r));
        assert(t.take(i0) =~= scheme);
    } else {
        let pl = path.len() as int;
        assert(r =~= path + seq![':'] + version);
        assert(is_last_colon(r, pl));
        assert(has_colon(r));
        assert(last_colon(r) == pl) by {
            let x = last_colon(r);
            assert(is_last_colon(r, x));
        }
        assert(r.take(pl) =~= path);
        assert(r.skip(pl + 1) =~= version);
        assert(t.take(i0) =~= scheme);
    }
}

/// A text without the separator "://" does not parse.
pub proof fn lemma_parse_needs_separator(s: Seq<char>)
    requires
        forall|i: int| !#[trigger] sep_at(s, i),
    ensures
        parse_spec(s) is None,
{
}

/// A remote object's address, split into scheme, path and version (empty when
/// unversioned).
#[derive(Debug, Clone, PartialEq, Eq)]
pub struct ProtocolPath {
    pub scheme: String,
    pub path: String,
    pub version: String,
}

impl ProtocolPath {
    pub fn parse(raw: &str) -> (r: Result<ProtocolPath, ParseError>)
        ensures
            match r {
                Ok(pp) => parse_spec(raw@) == Some((pp.scheme@, pp.path@, pp.version@)),
                Err(e) => parse_spec(raw@) is None && e == ParseError::InvalidFormat,
            },
    {
        match parse_path(raw) {
            Ok((scheme, path, version)) => Ok(ProtocolPath { scheme, path, version }),
            Err(_) => Err(ParseError::InvalidFormat),
        }
    }

    /// The text `scheme://path[:version]` of this address.
    pub fn to_raw(&self) -> (r: String)
        ensures
            r@ == join_spec(self.scheme@, self.path@, self.version@),
    {
        let mut r = self.scheme.clone();
        r.append("://");
        r.append(self.path.as_str());
        if self.version.unicode_len() > 0 {
            r.append(":");
            r.append(self.version.as_str());
        }
        proof {
            reveal_strlit("://");
            reveal_strlit(":");
            assert(r@ =~= join_spec(self.scheme@, self.path@, self.version@));
        }
        r
    }

    /// The inode id of the object this address names.
    pub fn inode_id(&self) -> (r: u64)
        ensures
            r == identity_hash(join_spec(self.scheme@, self.path@, self.version@)),
    {
        let raw = self.to_raw();
        gen_inode(raw.as_str())
    }
}

} // verus!
