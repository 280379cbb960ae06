use vstd::prelude::*;
use vstd::string::StrSliceExecFns;
use vstd::string::StringExecFns;
use crate::strutil::{find_char, find_char_in, push_char, str_eq, lemma_find_char_range};
use crate::PullError;

verus! {

/// One `key="value"` field: the part before the first '=' is the key, the
/// rest must be wrapped in double quotes and is the value without them.
pub open spec fn spec_kv(f: Seq<char>) -> Option<(Seq<char>, Seq<char>)> {
    match find_char(f, '=') {
        None => None,
        Some(i) => {
            let v = f.skip(i + 1);
            if v.len() >= 2 && v[0] == '"' && v[v.len() - 1] == '"' {
                Some((f.take(i), v.subrange(1, v.len() - 1)))
            } else {
                None
            }
        },
    }
}

/// The comma-separated fields of a challenge, each parsed as a `key="value"`
/// pair; None as soon as one field is malformed.
pub open spec fn spec_pairs(s: Seq<char>) -> Option<Seq<(Seq<char>, Seq<char>)>>
    decreases s.len(),
    via spec_pairs_dec
{
    match find_char(s, ',') {
        None => match spec_kv(s) {
            None => None,
            Some(kv) => Some(seq![kv]),
        },
        Some(i) => match (spec_kv(s.take(i)), spec_pairs(s.skip(i + 1))) {
            (Some(kv), Some(rest)) => Some(seq![kv] + rest),
            _ => None,
        },
    }
}

#[via_fn]
proof fn spec_pairs_dec(s: Seq<char>) {
    lemma_find_char_range(s, ',');
}

/// The value of the last "realm" pair, if any.
pub open spec fn spec_realm_of(ps: Seq<(Seq<char>, Seq<char>)>) -> Option<Seq<char>>
    decreases ps.len(),
{
    if ps.len() == 0 {
        None
    } else if ps.last().0 == "realm"@ {
        Some(ps.last().1)
    } else {
        spec_realm_of(ps.drop_last())
    }
}

/// All pairs except those keyed "realm", in header order.
pub open spec fn spec_params_of(ps: Seq<(Seq<char>, Seq<char>)>) -> Seq<(Seq<char>, Seq<char>)>
    decreases ps.len(),
{
    if ps.len() == 0 {
        Seq::empty()
    } else if ps.last().0 == "realm"@ {
        spec_params_of(ps.drop_last())
    } else {
        spec_params_of(ps.drop_last()).push(ps.last())
    }
}

/// The decomposition of an authentication challenge header: the pairs stand
/// in the second space-separated token; the realm is split from the other
/// parameters. None when the header has no second token, a field is
/// malformed, or no realm is given.
pub open spec fn spec_challenge(header: Seq<char>) -> Option<(Seq<char>, Seq<(Seq<char>, Seq<char>)>)> {
    match find_char(header, ' ') {
        None => None,
        Some(i) => {
            let rest = header.skip(i + 1);
            let blob = match find_char(rest, ' ') {
                None => rest,
                Some(j) => rest.take(j),
            };
            match spec_pairs(blob) {
                None => None,
                Some(ps) => match spec_realm_of(ps) {
                    None => None,
                    Some(r) => Some((r, spec_params_of(ps))),
                },
            }
        },
    }
}

/// An authentication challenge: the token endpoint and the remaining
/// challenge parameters.
#[derive(Debug, PartialEq, Eq)]
pub struct AuthChallenge {
    pub realm: String,
    pub params: Vec<(String, String)>,
}

fn parse_kv(f: &str) -> (r: Option<(String, String)>)
    ensures
        match r {
            Some(kv) => spec_kv(f@) == Some((kv.0@, kv.1@)),
            None => spec_kv(f@) is None,
        },
{
    let n = f.unicode_len();
    match find_char_in(f, '=') {
        None => None,
        Some(i) => {
            let v = f.substring_char(i + 1, n);
            proof {
                assert(v@ =~= f@.skip(i + 1));
            }
            let vlen = v.unicode_len();
            if vlen >= 2 && v.get_char(0) == '"' && v.get_char(vlen - 1) == '"' {
                let key = f.substring_char(0, i);
                let value = v.substring_char(1, vlen - 1);
                proof {
                    assert(key@ =~= f@.take(i as int));
                }
                Some((String::from_str(key), String::from_str(value)))
            } else {
                None
            }
        },
    }
}

fn parse_pairs(s: &str) -> (r: Option<Vec<(String, String)>>)
    ensures
        match r {
            Some(ps) => {
                &&& spec_pairs(s@) matches Some(sps)
                &&& ps@.len() == spec_pairs(s@)->Some_0.len()
                &&& forall|k: int|
                    0 <= k < ps@.len() ==> ps@[k].0@ == spec_pairs(s@)->Some_0[k].0
                        && ps@[k].1@ == spec_pairs(s@)->Some_0[k].1
            },
            None => spec_pairs(s@) is None,
        },
    decreases s@.len(),
{
    match find_char_in(s, ',') {
        None => match parse_kv(s) {
            None => None,
            Some(kv) => {
                let mut ps: Vec<(String, String)> = Vec::new();
                ps.push(kv);
                Some(ps)
            },
        },
        Some(i) => {
            let n = s.unicode_len();
            let head = s.substring_char(0, i);
            let rest = s.substring_char(i + 1, n);
            proof {
                assert(head@ =~= s@.take(i as int));
                assert(rest@ =~= s@.skip(i + 1));
            }
            match parse_kv(head) {
                None => None,
                Some(kv) => match parse_pairs(rest) {
                    None => None,
                    Some(mut ps) => {
                        ps.insert(0, kv);
                        Some(ps)
                    },
                },
            }
        },
    }
}

/// Parses an authentication challenge header into its realm and remaining
/// parameters. Repeated realms keep the last value; other repeated names are
/// kept in order.
pub fn parse_challenge(header: &str) -> (r: Result<AuthChallenge, PullError>)
    ensures
        match r {
            Ok(c) => {
                &&& spec_challenge(header@) matches Some(sc)
                &&& c.realm@ == spec_challenge(header@)->Some_0.0
                &&& c.params@.len() == spec_challenge(header@)->Some_0.1.len()
                &&& forall|k: int|
                    0 <= k < c.params@.len() ==> c.params@[k].0@ == spec_challenge(
                        header@,
                    )->Some_0.1[k].0 && c.params@[k].1@ == spec_challenge(header@)->Some_0.1[k].1
            },
            Err(e) => spec_challenge(header@) is None && e == PullError::AuthChallenge,
        },
{
    let n = header.unicode_len();
    let blob = match find_char_in(header, ' ') {
        None => {
            return Err(PullError::AuthChallenge);
        },
        Some(i) => {
            let rest = header.substring_char(i + 1, n);
            proof {
                assert(rest@ =~= header@.skip(i + 1));
            }
            match find_char_in(rest, ' ') {
                None => rest,
                Some(j) => {
                    let b = rest.substring_char(0, j);
                    proof {
                        assert(b@ =~= rest@.take(j as int));
                    }
                    b
                },
            }
        },
    };
    let ps = match parse_pairs(blob) {
        None => {
            return Err(PullError::AuthChallenge);
        },
        Some(ps) => ps,
    };
    let ghost sps = spec_pairs(blob@)->Some_0;
    let mut realm: Option<String> = None;
    let mut params: Vec<(String, String)> = Vec::new();
    let mut i: usize = 0;
    while i < ps.len()
        invariant
            0 <= i <= ps@.len(),
            ps@.len() == sps.len(),
            forall|k: int| 0 <= k < ps@.len() ==> ps@[k].0@ == sps[k].0 && ps@[k].1@ == sps[k].1,
            match realm {
                Some(v) => spec_realm_of(sps.take(i as int)) == Some(v@),
                None => spec_realm_of(sps.take(i as int)) is None,
            },
            params@.len() == spec_params_of(sps.take(i as int)).len(),
            forall|k: int|
                0 <= k < params@.len() ==> params@[k].0@ == spec_params_of(sps.take(i as int))[k].0
                    && params@[k].1@ == spec_params_of(sps.take(i as int))[k].1,
        decreases ps@.len() - i,
    {
        proof {
            assert(sps.take(i + 1).drop_last() =~= sps.take(i as int));
            assert(sps.take(i + 1).last() == sps[i as int]);
        }
        if str_eq(ps[i].0.as_str(), "realm") {
            realm = Some(ps[i].1.clone());
        } else {
            params.push((ps[i].0.clone(), ps[i].1.clone()));
        }
        i = i + 1;
    }
    proof {
        assert(sps.take(ps@.len() as int) =~= sps);
    }
    match realm {
        None => Err(PullError::AuthChallenge),
        Some(rv) => Ok(AuthChallenge { realm: rv, params }),
    }
}

/// The hexadecimal digit for a value below sixteen, upper case.
pub open spec fn spec_hex_digit(n: u8) -> char {
    if n == 0 { '0' } else if n == 1 { '1' } else if n == 2 { '2' } else if n == 3 { '3' }
    else if n == 4 { '4' } else if n == 5 { '5' } else if n == 6 { '6' } else if n == 7 { '7' }
    else if n == 8 { '8' } else if n == 9 { '9' } else if n == 10 { 'A' } else if n == 11 { 'B' }
    else if n == 12 { 'C' } else if n == 13 { 'D' } else if n == 14 { 'E' } else { 'F' }
}

/// Characters a query parameter keeps as they are: letters, digits, and
/// '*', '-', '.', '_'.
pub open spec fn spec_keeps(c: char) -> bool {
    let b = c as u32;
    (97 <= b && b <= 122) || (65 <= b && b <= 90) || (48 <= b && b <= 57) || b == 42 || b == 45
        || b == 46 || b == 95
}

/// Form encoding of one character: kept characters stand as themselves, a
/// space becomes '+', any other character of the seven-bit range becomes a
/// '%' escape. Characters beyond that range pass unchanged; a challenge
/// header, being an HTTP header, never carries one.
pub open spec fn spec_encode_char(c: char) -> Seq<char> {
    if spec_keeps(c) {
        seq![c]
    } else if c == ' ' {
        seq!['+']
    } else if (c as u32) < 128 {
        seq!['%', spec_hex_digit(((c as u32) / 16) as u8), spec_hex_digit(((c as u32) % 16) as u8)]
    } else {
        seq![c]
    }
}

/// Form encoding of a whole string.
pub open spec fn spec_encode(s: Seq<char>) -> Seq<char>
    decreases s.len(),
{
    if s.len() == 0 {
        Seq::empty()
    } else {
        spec_encode(s.drop_last()) + spec_encode_char(s.last())
    }
}

fn hex_digit(n: u8) -> (r: char)
    requires
        n < 16,
    ensures
        r == spec_hex_digit(n),
{
    if n == 0 { '0' } else if n == 1 { '1' } else if n == 2 { '2' } else if n == 3 { '3' }
    else if n == 4 { '4' } else if n == 5 { '5' } else if n == 6 { '6' } else if n == 7 { '7' }
    else if n == 8 { '8' } else if n == 9 { '9' } else if n == 10 { 'A' } else if n == 11 { 'B' }
    else if n == 12 { 'C' } else if n == 13 { 'D' } else if n == 14 { 'E' } else { 'F' }
}

fn keeps(c: char) -> (r: bool)
    ensures
        r == spec_keeps(c),
{
    let b = c as u32;
    (97 <= b && b <= 122) || (65 <= b && b <= 90) || (48 <= b && b <= 57) || b == 42 || b == 45
        || b == 46 || b == 95
}

fn encode_into(out: &mut String, s: &str)
    ensures
        final(out)@ == old(out)@ + spec_encode(s@),
{
    let n = s.unicode_len();
    let mut i: usize = 0;
    while i < n
        invariant
            n == s@.len(),
            0 <= i <= n,
            out@ == old(out)@ + spec_encode(s@.take(i as int)),
        decreases n - i,
    {
        let c = s.get_char(i);
        if keeps(c) {
            push_char(out, c);
        } else if c == ' ' {
            push_char(out, '+');
        } else if (c as u32) < 128 {
            let b = c as u32;
            push_char(out, '%');
            push_char(out, hex_digit((b / 16) as u8));
            push_char(out, hex_digit((b % 16) as u8));
        } else {
            push_char(out, c);
        }
        proof {
            assert(s@.take(i + 1).drop_last() =~= s@.take(i as int));
            assert(s@.take(i + 1).last() == s@[i as int]);
            assert(out@ =~= old(out)@ + spec_encode(s@.take(i + 1)));
        }
        i = i + 1;
    }
    proof {
        assert(s@.take(n as int) =~= s@);
        assert(out@ =~= old(out)@ + spec_encode(s@));
    }
}

/// The query string of the token request: the form-encoded parameters joined
/// with '&'.
pub open spec fn spec_query_string(ps: Seq<(Seq<char>, Seq<char>)>) -> Seq<char>
    decreases ps.len(),
{
    if ps.len() == 0 {
        Seq::empty()
    } else {
        let kv = spec_encode(ps.last().0) + seq!['='] + spec_encode(ps.last().1);
        if ps.len() == 1 {
            kv
        } else {
            spec_query_string(ps.drop_last()) + seq!['&'] + kv
        }
    }
}

/// The token request URL: the realm, then every challenge parameter except
/// the realm as a query parameter.
pub open spec fn spec_challenge_url(realm: Seq<char>, ps: Seq<(Seq<char>, Seq<char>)>) -> Seq<char> {
    if ps.len() == 0 {
        realm
    } else {
        let sep = if find_char(realm, '?') is None {
            seq!['?']
        } else {
            seq!['&']
        };
        realm + sep + spec_query_string(ps)
    }
}

/// Turns an authentication challenge header into the URL the bearer token is
/// requested from.
pub fn build_challenge_url(auth_header: &str) -> (r: Result<String, PullError>)
    ensures
        match r {
            Ok(u) => {
                &&& spec_challenge(auth_header@) matches Some(sc)
                &&& u@ == spec_challenge_url(
                    spec_challenge(auth_header@)->Some_0.0,
                    spec_challenge(auth_header@)->Some_0.1,
                )
            },
            Err(e) => spec_challenge(auth_header@) is None && e == PullError::AuthChallenge,
        },
{
    let c = match parse_challenge(auth_header) {
        Err(e) => {
            return Err(e);
        },
        Ok(c) => c,
    };
    let ghost realm = spec_challenge(auth_header@)->Some_0.0;
    let ghost params = spec_challenge(auth_header@)->Some_0.1;
    let sep: char = match find_char_in(c.realm.as_str(), '?') {
        None => '?',
        Some(_) => '&',
    };
    let mut url = c.realm;
    let mut i: usize = 0;
    while i < c.params.len()
        invariant
            0 <= i <= c.params@.len(),
            c.params@.len() == params.len(),
            forall|k: int|
                0 <= k < params.len() ==> c.params@[k].0@ == params[k].0 && c.params@[k].1@
                    == params[k].1,
            sep == (if find_char(realm, '?') is None { '?' } else { '&' }),
            i == 0 ==> url@ == realm,
            i > 0 ==> url@ == realm + seq![sep] + spec_query_string(params.take(i as int)),
        decreases c.params@.len() - i,
    {
        proof {
            assert(params.take(i + 1).drop_last() =~= params.take(i as int));
            assert(params.take(i + 1).last() == params[i as int]);
        }
        if i == 0 {
            push_char(&mut url, sep);
        } else {
            push_char(&mut url, '&');
        }
        encode_into(&mut url, c.params[i].0.as_str());
        push_char(&mut url, '=');
        encode_into(&mut url, c.params[i].1.as_str());
        proof {
            assert(url@ =~= realm + seq![sep] + spec_query_string(params.take(i + 1)));
        }
        i = i + 1;
    }
    proof {
        assert(params.take(params.len() as int) =~= params);
        if params.len() > 0 {
            assert(url@ =~= spec_challenge_url(realm, params));
        }
    }
    Ok(url)
}

} // verus!
