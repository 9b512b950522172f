use crate::codec::ser_state;
use crate::codec::version_tag;
use crate::engine::GameState;
use crate::engine::upgraded_to_latest;
use crate::errors::MigrationError;
use crate::ident::Identifier;
use crate::ident::id_wf;
use crate::schema::V1SaveMonster;
use crate::schema::V1SavePlayer;
use crate::schema::V1SaveState;
use crate::schema::V2SaveMonster;
use crate::schema::V2SavePlayer;
use crate::schema::V2SaveState;
use crate::schema::V3MonsterVariant;
use crate::schema::V3SaveMonster;
use crate::schema::V3SavePlayer;
use crate::schema::V3SaveState;
use crate::schema::opt_id_wf;
use vstd::prelude::*;
use vstd::string::StrSliceExecFns;

verus! {

// ---------------------------------------------------------------------
// The envelope grammar, stated as a specification. Decoding reads the
// version tag out of the fixed framing first and only then parses the
// payload against the schema that tag names — never by trying schemas.
// ---------------------------------------------------------------------
/// The closed set of version tags the codec recognizes.
pub open spec fn known_tag(t: Seq<char>) -> bool {
    t == "1.0"@ || t == "2.0"@ || t == "3.0"@
}

/// Position of the first quote character at or after `i`.
pub open spec fn quote_pos(s: Seq<char>, i: int) -> Option<int>
    decreases s.len() - i,
{
    if i < 0 || i >= s.len() {
        None
    } else if s[i] == '"' {
        Some(i)
    } else {
        quote_pos(s, i + 1)
    }
}

/// Splits wire text into its envelope parts — the version tag and the
/// raw payload text — exactly when the fixed framing
/// `{"version":"<tag>","data":<payload>}` is present.
pub open spec fn envelope_parts(s: Seq<char>) -> Option<(Seq<char>, Seq<char>)> {
    let ep = "{\"version\":\""@;
    let sep = "\",\"data\":"@;
    if s.len() > ep.len() && s.subrange(0, ep.len() as int) == ep && s[s.len() - 1] == '}' {
        match quote_pos(s, ep.len() as int) {
            Some(q) => {
                if q + sep.len() <= s.len() - 1 && s.subrange(q, q + sep.len()) == sep {
                    Some((s.subrange(ep.len() as int, q), s.subrange(q + sep.len(), s.len() - 1)))
                } else {
                    None
                }
            },
            None => None,
        }
    } else {
        None
    }
}

proof fn lemma_quote_pos_props(s: Seq<char>, from: int, q: int)
    requires
        0 <= from,
        quote_pos(s, from) == Some(q),
    ensures
        from <= q < s.len(),
        s[q] == '"',
        forall|k: int| from <= k < q ==> (#[trigger] s[k]) != '"',
    decreases s.len() - from,
{
    if from >= s.len() {
        assert(false);
    } else if s[from] == '"' {
    } else {
        lemma_quote_pos_props(s, from + 1, q);
    }
}

proof fn lemma_quote_pos_first(s: Seq<char>, from: int, q: int)
    requires
        0 <= from <= q < s.len(),
        s[q] == '"',
        forall|k: int| from <= k < q ==> (#[trigger] s[k]) != '"',
    ensures
        quote_pos(s, from) == Some(q),
    decreases q - from,
{
    if from < q {
        lemma_quote_pos_first(s, from + 1, q);
    }
}

/// When the text starts with the full canonical framing around `tag` and
/// closes with a brace, the envelope splits into that tag and the text
/// between the framing and the final brace.
proof fn lemma_branch_parts(s: Seq<char>, tag: Seq<char>)
    requires
        tag.len() >= 1,
        forall|k: int| 0 <= k < tag.len() ==> (#[trigger] tag[k]) != '"',
        12 + tag.len() + 9 <= s.len(),
        s.subrange(0, 12) == "{\"version\":\""@,
        s.subrange(12, 12 + tag.len() as int) == tag,
        s.subrange(12 + tag.len() as int, 12 + tag.len() as int + 9) == "\",\"data\":"@,
        s[s.len() - 1] == '}',
    ensures
        envelope_parts(s) == Some(
            (tag, s.subrange(12 + tag.len() as int + 9, s.len() as int - 1)),
        ),
{
    reveal_strlit("{\"version\":\"");
    reveal_strlit("\",\"data\":");
    let ep = "{\"version\":\""@;
    let sep = "\",\"data\":"@;
    assert(ep.len() == 12);
    assert(sep.len() == 9);
    let q = 12 + tag.len() as int;
    assert(s.subrange(q, q + 9)[0] == s[q]);
    assert(s[q] == '"');
    assert forall|k: int| 12 <= k < q implies (#[trigger] s[k]) != '"' by {
        assert(s.subrange(12, q)[k - 12] == s[k]);
        assert(tag[k - 12] != '"');
    }
    lemma_quote_pos_first(s, 12, q);
    // the text cannot end inside the framing: its last character is ':'
    assert(s.subrange(q, q + 9)[8] == s[q + 8]);
    assert(sep[8] == ':');
    if s.len() == q + 9 {
        assert(s[s.len() - 1] == ':');
        assert(false);
    }
    assert(q + 9 <= s.len() - 1);
    assert(envelope_parts(s) == Some((s.subrange(12, q), s.subrange(q + 9, s.len() - 1))));
}

/// Conversely: when the envelope splits with tag `tag`, the text starts
/// with the full canonical prefix for that tag.
proof fn lemma_known_tag_prefix(s: Seq<char>, tag: Seq<char>, pre: Seq<char>)
    requires
        envelope_parts(s) matches Some(p) && p.0 == tag,
        pre == "{\"version\":\""@ + tag + "\",\"data\":"@,
    ensures
        pre.len() == 21 + tag.len(),
        pre.len() < s.len(),
        s.subrange(0, pre.len() as int) == pre,
{
    reveal_strlit("{\"version\":\"");
    reveal_strlit("\",\"data\":");
    let ep = "{\"version\":\""@;
    let sep = "\",\"data\":"@;
    assert(ep.len() == 12);
    assert(sep.len() == 9);
    match quote_pos(s, 12) {
        None => {
            assert(false);
        },
        Some(q) => {
            lemma_quote_pos_props(s, 12, q);
            assert(tag == s.subrange(12, q));
            assert(tag.len() == q - 12);
            assert(pre.len() == 21 + tag.len());
            assert forall|k: int| 0 <= k < pre.len() implies #[trigger] pre[k] == s[k] by {
                if k < 12 {
                    assert((ep + tag + sep)[k] == ep[k]);
                    assert(s.subrange(0, 12)[k] == s[k]);
                } else if k < q {
                    assert((ep + tag + sep)[k] == tag[k - 12]);
                    assert(s.subrange(12, q)[k - 12] == s[k]);
                } else {
                    assert((ep + tag + sep)[k] == sep[k - q]);
                    assert(s.subrange(q, q + 9)[k - q] == s[k]);
                }
            }
            assert(s.subrange(0, pre.len() as int) =~= pre);
        },
    }
}

/// Canonically encoded text always splits into an envelope whose tag is
/// one of the declared versions: a canonical input can never be refused
/// as a malformed envelope or an unknown version.
pub proof fn lemma_canonical_envelope(g: GameState)
    ensures
        envelope_parts(ser_state(g)) matches Some(p) && known_tag(p.0),
{
    reveal_strlit("{\"version\":\"1.0\",\"data\":");
    reveal_strlit("{\"version\":\"2.0\",\"data\":");
    reveal_strlit("{\"version\":\"3.0\",\"data\":");
    reveal_strlit("{\"version\":\"");
    reveal_strlit("\",\"data\":");
    reveal_strlit("1.0");
    reveal_strlit("2.0");
    reveal_strlit("3.0");
    reveal_strlit("}");
    let s = ser_state(g);
    match g {
        GameState::V1_0(st) => {
            let pre = "{\"version\":\"1.0\",\"data\":"@;
            let payload = crate::codec::ser_v1_payload(st);
            let close = "}"@;
            assert(pre.len() == 24);
            assert(s == pre + payload + close);
            assert(s.len() == 25 + payload.len());
            assert forall|k: int| 0 <= k < 24 implies #[trigger] s[k] == pre[k] by {
                assert((pre + payload + close)[k] == pre[k]);
            }
            assert(s.subrange(0, 12) =~= "{\"version\":\""@);
            assert(s.subrange(12, 15) =~= "1.0"@);
            assert(s.subrange(15, 24) =~= "\",\"data\":"@);
            assert((pre + payload + close)[s.len() - 1] == close[0]);
            assert(s[s.len() - 1] == '}');
            lemma_branch_parts(s, "1.0"@);
        },
        GameState::V2_0(st) => {
            let pre = "{\"version\":\"2.0\",\"data\":"@;
            let payload = crate::codec::ser_v2_payload(st);
            let close = "}"@;
            assert(pre.len() == 24);
            assert(s == pre + payload + close);
            assert(s.len() == 25 + payload.len());
            assert forall|k: int| 0 <= k < 24 implies #[trigger] s[k] == pre[k] by {
                assert((pre + payload + close)[k] == pre[k]);
            }
            assert(s.subrange(0, 12) =~= "{\"version\":\""@);
            assert(s.subrange(12, 15) =~= "2.0"@);
            assert(s.subrange(15, 24) =~= "\",\"data\":"@);
            assert((pre + payload + close)[s.len() - 1] == close[0]);
            assert(s[s.len() - 1] == '}');
            lemma_branch_parts(s, "2.0"@);
        },
        GameState::V3_0(st) => {
            let pre = "{\"version\":\"3.0\",\"data\":"@;
            let payload = crate::codec::ser_v3_payload(st);
            let close = "}"@;
            assert(pre.len() == 24);
            assert(s == pre + payload + close);
            assert(s.len() == 25 + payload.len());
            assert forall|k: int| 0 <= k < 24 implies #[trigger] s[k] == pre[k] by {
                assert((pre + payload + close)[k] == pre[k]);
            }
            assert(s.subrange(0, 12) =~= "{\"version\":\""@);
            assert(s.subrange(12, 15) =~= "3.0"@);
            assert(s.subrange(15, 24) =~= "\",\"data\":"@);
            assert((pre + payload + close)[s.len() - 1] == close[0]);
            assert(s[s.len() - 1] == '}');
            lemma_branch_parts(s, "3.0"@);
        },
    }
}

// ---------------------------------------------------------------------
// Exact text scanning helpers.
// ---------------------------------------------------------------------
/// Whether the text carries exactly `lit` starting at position `i`.
fn str_eq_at(s: &str, i: usize, lit: &str) -> (r: bool)
    ensures
        r <==> (i + lit@.len() <= s@.len() && s@.subrange(i as int, i + lit@.len()) == lit@),
{
    let n = s.unicode_len();
    let l = lit.unicode_len();
    if i > n || l > n - i {
        return false;
    }
    let mut k: usize = 0;
    while k < l
        invariant
            k <= l,
            i + l <= n,
            l as nat == lit@.len(),
            n as nat == s@.len(),
            forall|m: int| 0 <= m < k ==> s@[i + m] == #[trigger] lit@[m],
        decreases l - k,
    {
        if s.get_char(i + k) != lit.get_char(k) {
            proof {
                assert(s@.subrange(i as int, i + lit@.len())[k as int] == s@[i + k]);
            }
            return false;
        }
        k += 1;
    }
    proof {
        assert(s@.subrange(i as int, i + lit@.len()) =~= lit@);
    }
    true
}

/// Position of the first quote character at or after `from`.
fn find_quote(s: &str, from: usize) -> (r: Option<usize>)
    ensures
        match r {
            Some(q) => quote_pos(s@, from as int) == Some(q as int),
            None => quote_pos(s@, from as int) is None,
        },
{
    let n = s.unicode_len();
    if from > n {
        return None;
    }
    let mut i: usize = from;
    while i < n
        invariant
            from <= i <= n,
            n as nat == s@.len(),
            quote_pos(s@, from as int) == quote_pos(s@, i as int),
        decreases n - i,
    {
        if s.get_char(i) == '"' {
            return Some(i);
        }
        i += 1;
    }
    None
}

/// Whether character `c` stands at position `i`.
fn has_char_at(s: &str, i: usize, c: char) -> (r: bool)
    ensures
        r <==> (i < s@.len() && s@[i as int] == c),
{
    let n = s.unicode_len();
    if i < n {
        s.get_char(i) == c
    } else {
        false
    }
}

/// Consumes exactly `lit` at position `i`.
fn expect(s: &str, i: usize, lit: &str) -> (r: Option<usize>)
    ensures
        r matches Some(j) ==> i <= j && j as nat <= s@.len(),
{
    if str_eq_at(s, i, lit) {
        // the text length bounds the sum, so it cannot overflow
        let n = s.unicode_len();
        let l = lit.unicode_len();
        Some(i + l)
    } else {
        None
    }
}

// ---------------------------------------------------------------------
// The payload parser. The payload is JSON-shaped: whitespace between
// tokens and the order of attributes are irrelevant, while an unknown,
// duplicate or missing attribute is rejected. Beyond bounds, progress
// and identifier well-formedness nothing is claimed of it; the envelope
// contracts above are carried by the framing analysis alone.
// ---------------------------------------------------------------------
/// Advances past any whitespace characters.
fn skip_ws(s: &str, i: usize) -> (r: usize)
    ensures
        i <= r,
        i as nat <= s@.len() ==> r as nat <= s@.len(),
{
    let n = s.unicode_len();
    let mut j: usize = i;
    while j < n && is_ws_at(s, j)
        invariant
            i <= j,
            n as nat == s@.len(),
            j <= n || j == i,
        decreases n - j,
    {
        j += 1;
    }
    j
}

fn is_ws_at(s: &str, j: usize) -> (r: bool)
    requires
        j < s@.len(),
{
    let c = s.get_char(j);
    c == ' ' || c == '\t' || c == '\n' || c == '\r'
}

/// Consumes the colon between an attribute name and its value, with any
/// surrounding whitespace.
fn expect_colon(s: &str, i: usize) -> (r: Option<usize>)
    ensures
        r matches Some(j) ==> i <= j && j as nat <= s@.len(),
{
    let n = s.unicode_len();
    let j = skip_ws(s, i);
    if has_char_at(s, j, ':') {
        Some(skip_ws(s, j + 1))
    } else {
        None
    }
}

fn is_digit_at(s: &str, j: usize) -> (r: bool)
    requires
        j < s@.len(),
    ensures
        r <==> (48 <= s@[j as int] as u32 <= 57),
{
    let c = s.get_char(j) as u32;
    48 <= c && c <= 57
}

fn parse_u64(s: &str, i: usize) -> (r: Option<(u64, usize)>)
    ensures
        r matches Some(p) ==> i < p.1 && p.1 as nat <= s@.len(),
{
    let n = s.unicode_len();
    if i >= n {
        return None;
    }
    if !is_digit_at(s, i) {
        return None;
    }
    let c0v = s.get_char(i) as u32;
    let mut val: u64 = (c0v - 48) as u64;
    let mut j: usize = i + 1;
    while j < n && is_digit_at(s, j)
        invariant
            i < j <= n,
            n as nat == s@.len(),
        decreases n - j,
    {
        let c = s.get_char(j) as u32;
        let d = (c - 48) as u64;
        if val > 1844674407370955161u64 {
            return None;
        }
        if val == 1844674407370955161u64 && d > 5 {
            return None;
        }
        val = val * 10 + d;
        j += 1;
    }
    // a redundant leading zero is not a JSON numeral
    if c0v == 48 && j > i + 1 {
        return None;
    }
    Some((val, j))
}

fn parse_u32(s: &str, i: usize) -> (r: Option<(u32, usize)>)
    ensures
        r matches Some(p) ==> i < p.1 && p.1 as nat <= s@.len(),
{
    match parse_u64(s, i) {
        None => None,
        Some((v, j)) => {
            if v > 0xffff_ffffu64 {
                None
            } else {
                Some((v as u32, j))
            }
        },
    }
}

fn parse_id(s: &str, i: usize) -> (r: Option<(Identifier, usize)>)
    ensures
        r matches Some(p) ==> i < p.1 && p.1 as nat <= s@.len() && id_wf(p.0),
{
    match parse_u64(s, i) {
        None => None,
        Some((b, j)) => {
            match Identifier::from_bits(b) {
                None => None,
                Some(id) => Some((id, j)),
            }
        },
    }
}

fn parse_opt_id(s: &str, i: usize) -> (r: Option<(Option<Identifier>, usize)>)
    ensures
        r matches Some(p) ==> i < p.1 && p.1 as nat <= s@.len() && opt_id_wf(p.0),
{
    proof {
        reveal_strlit("null");
    }
    if str_eq_at(s, i, "null") {
        // the text length bounds the sum, so it cannot overflow
        let n = s.unicode_len();
        Some((None, i + 4))
    } else {
        match parse_id(s, i) {
            None => None,
            Some((id, j)) => Some((Some(id), j)),
        }
    }
}

fn parse_variant(s: &str, i: usize) -> (r: Option<(V3MonsterVariant, usize)>)
    ensures
        r matches Some(p) ==> i < p.1 && p.1 as nat <= s@.len(),
{
    proof {
        reveal_strlit("\"Angry\"");
        reveal_strlit("\"Scary\"");
    }
    if str_eq_at(s, i, "\"Angry\"") {
        // the text length bounds the sum, so it cannot overflow
        let n = s.unicode_len();
        Some((V3MonsterVariant::Angry, i + 7))
    } else if str_eq_at(s, i, "\"Scary\"") {
        let n = s.unicode_len();
        Some((V3MonsterVariant::Scary, i + 7))
    } else {
        None
    }
}

fn parse_v1_player(s: &str, i: usize) -> (r: Option<(V1SavePlayer, usize)>)
    ensures
        r matches Some(p) ==> i < p.1 && p.1 as nat <= s@.len() && id_wf(p.0.entity) && opt_id_wf(p.0.target),
{
    let n = s.unicode_len();
    let j0 = skip_ws(s, i);
    if !has_char_at(s, j0, '{') {
        return None;
    }
    let mut j: usize = skip_ws(s, j0 + 1);
    let mut f_entity: Option<Identifier> = None;
    let mut f_health: Option<u32> = None;
    let mut f_level: Option<u32> = None;
    let mut f_target: Option<Option<Identifier>> = None;
    let mut more = true;
    while more
        invariant
            i < j,
            j as nat <= s@.len(),
            n as nat == s@.len(),
            f_entity matches Some(v) ==> id_wf(v),
            f_target matches Some(v) ==> opt_id_wf(v),
        decreases n - j,
    {
        let k_entity = expect(s, j, "\"entity\"");
        let k_health = expect(s, j, "\"health\"");
        let k_level = expect(s, j, "\"level\"");
        let k_target = expect(s, j, "\"target\"");
        if k_entity.is_some() {
            if f_entity.is_some() {
                return None;
            }
            let jc = match expect_colon(s, k_entity.unwrap()) {
                None => {
                    return None;
                },
                Some(x) => x,
            };
            let (v, jv) = match parse_id(s, jc) {
                None => {
                    return None;
                },
                Some(x) => x,
            };
            f_entity = Some(v);
            j = jv;
        } else if k_health.is_some() {
            if f_health.is_some() {
                return None;
            }
            let jc = match expect_colon(s, k_health.unwrap()) {
                None => {
                    return None;
                },
                Some(x) => x,
            };
            let (v, jv) = match parse_u32(s, jc) {
                None => {
                    return None;
                },
                Some(x) => x,
            };
            f_health = Some(v);
            j = jv;
        } else if k_level.is_some() {
            if f_level.is_some() {
                return None;
            }
            let jc = match expect_colon(s, k_level.unwrap()) {
                None => {
                    return None;
                },
                Some(x) => x,
            };
            let (v, jv) = match parse_u32(s, jc) {
                None => {
                    return None;
                },
                Some(x) => x,
            };
            f_level = Some(v);
            j = jv;
        } else if k_target.is_some() {
            if f_target.is_some() {
                return None;
            }
            let jc = match expect_colon(s, k_target.unwrap()) {
                None => {
                    return None;
                },
                Some(x) => x,
            };
            let (v, jv) = match parse_opt_id(s, jc) {
                None => {
                    return None;
                },
                Some(x) => x,
            };
            f_target = Some(v);
            j = jv;
        } else {
            return None;
        }
        let js = skip_ws(s, j);
        if has_char_at(s, js, ',') {
            j = skip_ws(s, js + 1);
        } else if has_char_at(s, js, '}') {
            j = js + 1;
            more = false;
        } else {
            return None;
        }
    }
    match (f_entity, f_health, f_level, f_target) {
        (Some(entity), Some(health), Some(level), Some(target)) => Some((V1SavePlayer { entity, health, level, target }, j)),
        _ => None,
    }
}

fn parse_v1_monster(s: &str, i: usize) -> (r: Option<(V1SaveMonster, usize)>)
    ensures
        r matches Some(p) ==> i < p.1 && p.1 as nat <= s@.len() && id_wf(p.0.entity),
{
    let n = s.unicode_len();
    let j0 = skip_ws(s, i);
    if !has_char_at(s, j0, '{') {
        return None;
    }
    let mut j: usize = skip_ws(s, j0 + 1);
    let mut f_entity: Option<Identifier> = None;
    let mut f_health: Option<u32> = None;
    let mut more = true;
    while more
        invariant
            i < j,
            j as nat <= s@.len(),
            n as nat == s@.len(),
            f_entity matches Some(v) ==> id_wf(v),
        decreases n - j,
    {
        let k_entity = expect(s, j, "\"entity\"");
        let k_health = expect(s, j, "\"health\"");
        if k_entity.is_some() {
            if f_entity.is_some() {
                return None;
            }
            let jc = match expect_colon(s, k_entity.unwrap()) {
                None => {
                    return None;
                },
                Some(x) => x,
            };
            let (v, jv) = match parse_id(s, jc) {
                None => {
                    return None;
                },
                Some(x) => x,
            };
            f_entity = Some(v);
            j = jv;
        } else if k_health.is_some() {
            if f_health.is_some() {
                return None;
            }
            let jc = match expect_colon(s, k_health.unwrap()) {
                None => {
                    return None;
                },
                Some(x) => x,
            };
            let (v, jv) = match parse_u32(s, jc) {
                None => {
                    return None;
                },
                Some(x) => x,
            };
            f_health = Some(v);
            j = jv;
        } else {
            return None;
        }
        let js = skip_ws(s, j);
        if has_char_at(s, js, ',') {
            j = skip_ws(s, js + 1);
        } else if has_char_at(s, js, '}') {
            j = js + 1;
            more = false;
        } else {
            return None;
        }
    }
    match (f_entity, f_health) {
        (Some(entity), Some(health)) => Some((V1SaveMonster { entity, health }, j)),
        _ => None,
    }
}

fn parse_v2_player(s: &str, i: usize) -> (r: Option<(V2SavePlayer, usize)>)
    ensures
        r matches Some(p) ==> i < p.1 && p.1 as nat <= s@.len() && id_wf(p.0.entity) && opt_id_wf(p.0.target),
{
    let n = s.unicode_len();
    let j0 = skip_ws(s, i);
    if !has_char_at(s, j0, '{') {
        return None;
    }
    let mut j: usize = skip_ws(s, j0 + 1);
    let mut f_entity: Option<Identifier> = None;
    let mut f_health: Option<u32> = None;
    let mut f_level: Option<u32> = None;
    let mut f_target: Option<Option<Identifier>> = None;
    let mut f_exp: Option<u32> = None;
    let mut f_damage: Option<u32> = None;
    let mut more = true;
    while more
        invariant
            i < j,
            j as nat <= s@.len(),
            n as nat == s@.len(),
            f_entity matches Some(v) ==> id_wf(v),
            f_target matches Some(v) ==> opt_id_wf(v),
        decreases n - j,
    {
        let k_entity = expect(s, j, "\"entity\"");
        let k_health = expect(s, j, "\"health\"");
        let k_level = expect(s, j, "\"level\"");
        let k_target = expect(s, j, "\"target\"");
        let k_exp = expect(s, j, "\"exp\"");
        let k_damage = expect(s, j, "\"damage\"");
        if k_entity.is_some() {
            if f_entity.is_some() {
                return None;
            }
            let jc = match expect_colon(s, k_entity.unwrap()) {
                None => {
                    return None;
                },
                Some(x) => x,
            };
            let (v, jv) = match parse_id(s, jc) {
                None => {
                    return None;
                },
                Some(x) => x,
            };
            f_entity = Some(v);
            j = jv;
        } else if k_health.is_some() {
            if f_health.is_some() {
                return None;
            }
            let jc = match expect_colon(s, k_health.unwrap()) {
                None => {
                    return None;
                },
                Some(x) => x,
            };
            let (v, jv) = match parse_u32(s, jc) {
                None => {
                    return None;
                },
                Some(x) => x,
            };
            f_health = Some(v);
            j = jv;
        } else if k_level.is_some() {
            if f_level.is_some() {
                return None;
            }
            let jc = match expect_colon(s, k_level.unwrap()) {
                None => {
                    return None;
                },
                Some(x) => x,
            };
            let (v, jv) = match parse_u32(s, jc) {
                None => {
                    return None;
                },
                Some(x) => x,
            };
            f_level = Some(v);
            j = jv;
        } else if k_target.is_some() {
            if f_target.is_some() {
                return None;
            }
            let jc = match expect_colon(s, k_target.unwrap()) {
                None => {
                    return None;
                },
                Some(x) => x,
            };
            let (v, jv) = match parse_opt_id(s, jc) {
                None => {
                    return None;
                },
                Some(x) => x,
            };
            f_target = Some(v);
            j = jv;
        } else if k_exp.is_some() {
            if f_exp.is_some() {
                return None;
            }
            let jc = match expect_colon(s, k_exp.unwrap()) {
                None => {
                    return None;
                },
                Some(x) => x,
            };
            let (v, jv) = match parse_u32(s, jc) {
                None => {
                    return None;
                },
                Some(x) => x,
            };
            f_exp = Some(v);
            j = jv;
        } else if k_damage.is_some() {
            if f_damage.is_some() {
                return None;
            }
            let jc = match expect_colon(s, k_damage.unwrap()) {
                None => {
                    return None;
                },
                Some(x) => x,
            };
            let (v, jv) = match parse_u32(s, jc) {
                None => {
                    return None;
                },
                Some(x) => x,
            };
            f_damage = Some(v);
            j = jv;
        } else {
            return None;
        }
        let js = skip_ws(s, j);
        if has_char_at(s, js, ',') {
            j = skip_ws(s, js + 1);
        } else if has_char_at(s, js, '}') {
            j = js + 1;
            more = false;
        } else {
            return None;
        }
    }
    match (f_entity, f_health, f_level, f_target, f_exp, f_damage) {
        (Some(entity), Some(health), Some(level), Some(target), Some(exp), Some(damage)) => Some((V2SavePlayer { entity, health, level, target, exp, damage }, j)),
        _ => None,
    }
}

fn parse_v2_monster(s: &str, i: usize) -> (r: Option<(V2SaveMonster, usize)>)
    ensures
        r matches Some(p) ==> i < p.1 && p.1 as nat <= s@.len() && id_wf(p.0.entity),
{
    let n = s.unicode_len();
    let j0 = skip_ws(s, i);
    if !has_char_at(s, j0, '{') {
        return None;
    }
    let mut j: usize = skip_ws(s, j0 + 1);
    let mut f_entity: Option<Identifier> = None;
    let mut f_health: Option<u32> = None;
    let mut f_damage: Option<u32> = None;
    let mut more = true;
    while more
        invariant
            i < j,
            j as nat <= s@.len(),
            n as nat == s@.len(),
            f_entity matches Some(v) ==> id_wf(v),
        decreases n - j,
    {
        let k_entity = expect(s, j, "\"entity\"");
        let k_health = expect(s, j, "\"health\"");
        let k_damage = expect(s, j, "\"damage\"");
        if k_entity.is_some() {
            if f_entity.is_some() {
                return None;
            }
            let jc = match expect_colon(s, k_entity.unwrap()) {
                None => {
                    return None;
                },
                Some(x) => x,
            };
            let (v, jv) = match parse_id(s, jc) {
                None => {
                    return None;
                },
                Some(x) => x,
            };
            f_entity = Some(v);
            j = jv;
        } else if k_health.is_some() {
            if f_health.is_some() {
                return None;
            }
            let jc = match expect_colon(s, k_health.unwrap()) {
                None => {
                    return None;
                },
                Some(x) => x,
            };
            let (v, jv) = match parse_u32(s, jc) {
                None => {
                    return None;
                },
                Some(x) => x,
            };
            f_health = Some(v);
            j = jv;
        } else if k_damage.is_some() {
            if f_damage.is_some() {
                return None;
            }
            let jc = match expect_colon(s, k_damage.unwrap()) {
                None => {
                    return None;
                },
                Some(x) => x,
            };
            let (v, jv) = match parse_u32(s, jc) {
                None => {
                    return None;
                },
                Some(x) => x,
            };
            f_damage = Some(v);
            j = jv;
        } else {
            return None;
        }
        let js = skip_ws(s, j);
        if has_char_at(s, js, ',') {
            j = skip_ws(s, js + 1);
        } else if has_char_at(s, js, '}') {
            j = js + 1;
            more = false;
        } else {
            return None;
        }
    }
    match (f_entity, f_health, f_damage) {
        (Some(entity), Some(health), Some(damage)) => Some((V2SaveMonster { entity, health, damage }, j)),
        _ => None,
    }
}

fn parse_v3_player(s: &str, i: usize) -> (r: Option<(V3SavePlayer, usize)>)
    ensures
        r matches Some(p) ==> i < p.1 && p.1 as nat <= s@.len() && id_wf(p.0.entity) && opt_id_wf(p.0.target),
{
    let n = s.unicode_len();
    let j0 = skip_ws(s, i);
    if !has_char_at(s, j0, '{') {
        return None;
    }
    let mut j: usize = skip_ws(s, j0 + 1);
    let mut f_entity: Option<Identifier> = None;
    let mut f_health: Option<u32> = None;
    let mut f_level: Option<u32> = None;
    let mut f_target: Option<Option<Identifier>> = None;
    let mut f_damage: Option<u32> = None;
    let mut more = true;
    while more
        invariant
            i < j,
            j as nat <= s@.len(),
            n as nat == s@.len(),
            f_entity matches Some(v) ==> id_wf(v),
            f_target matches Some(v) ==> opt_id_wf(v),
        decreases n - j,
    {
        let k_entity = expect(s, j, "\"entity\"");
        let k_health = expect(s, j, "\"health\"");
        let k_level = expect(s, j, "\"level\"");
        let k_target = expect(s, j, "\"target\"");
        let k_damage = expect(s, j, "\"damage\"");
        if k_entity.is_some() {
            if f_entity.is_some() {
                return None;
            }
            let jc = match expect_colon(s, k_entity.unwrap()) {
                None => {
                    return None;
                },
                Some(x) => x,
            };
            let (v, jv) = match parse_id(s, jc) {
                None => {
                    return None;
                },
                Some(x) => x,
            };
            f_entity = Some(v);
            j = jv;
        } else if k_health.is_some() {
            if f_health.is_some() {
                return None;
            }
            let jc = match expect_colon(s, k_health.unwrap()) {
                None => {
                    return None;
                },
                Some(x) => x,
            };
            let (v, jv) = match parse_u32(s, jc) {
                None => {
                    return None;
                },
                Some(x) => x,
            };
            f_health = Some(v);
            j = jv;
        } else if k_level.is_some() {
            if f_level.is_some() {
                return None;
            }
            let jc = match expect_colon(s, k_level.unwrap()) {
                None => {
                    return None;
                },
                Some(x) => x,
            };
            let (v, jv) = match parse_u32(s, jc) {
                None => {
                    return None;
                },
                Some(x) => x,
            };
            f_level = Some(v);
            j = jv;
        } else if k_target.is_some() {
            if f_target.is_some() {
                return None;
            }
            let jc = match expect_colon(s, k_target.unwrap()) {
                None => {
                    return None;
                },
                Some(x) => x,
            };
            let (v, jv) = match parse_opt_id(s, jc) {
                None => {
                    return None;
                },
                Some(x) => x,
            };
            f_target = Some(v);
            j = jv;
        } else if k_damage.is_some() {
            if f_damage.is_some() {
                return None;
            }
            let jc = match expect_colon(s, k_damage.unwrap()) {
                None => {
                    return None;
                },
                Some(x) => x,
            };
            let (v, jv) = match parse_u32(s, jc) {
                None => {
                    return None;
                },
                Some(x) => x,
            };
            f_damage = Some(v);
            j = jv;
        } else {
            return None;
        }
        let js = skip_ws(s, j);
        if has_char_at(s, js, ',') {
            j = skip_ws(s, js + 1);
        } else if has_char_at(s, js, '}') {
            j = js + 1;
            more = false;
        } else {
            return None;
        }
    }
    match (f_entity, f_health, f_level, f_target, f_damage) {
        (Some(entity), Some(health), Some(level), Some(target), Some(damage)) => Some((V3SavePlayer { entity, health, level, target, damage }, j)),
        _ => None,
    }
}

fn parse_v3_monster(s: &str, i: usize) -> (r: Option<(V3SaveMonster, usize)>)
    ensures
        r matches Some(p) ==> i < p.1 && p.1 as nat <= s@.len() && id_wf(p.0.entity),
{
    let n = s.unicode_len();
    let j0 = skip_ws(s, i);
    if !has_char_at(s, j0, '{') {
        return None;
    }
    let mut j: usize = skip_ws(s, j0 + 1);
    let mut f_entity: Option<Identifier> = None;
    let mut f_health: Option<u32> = None;
    let mut f_damage: Option<u32> = None;
    let mut f_variant: Option<V3MonsterVariant> = None;
    let mut more = true;
    while more
        invariant
            i < j,
            j as nat <= s@.len(),
            n as nat == s@.len(),
            f_entity matches Some(v) ==> id_wf(v),
        decreases n - j,
    {
        let k_entity = expect(s, j, "\"entity\"");
        let k_health = expect(s, j, "\"health\"");
        let k_damage = expect(s, j, "\"damage\"");
        let k_variant = expect(s, j, "\"variant\"");
        if k_entity.is_some() {
            if f_entity.is_some() {
                return None;
            }
            let jc = match expect_colon(s, k_entity.unwrap()) {
                None => {
                    return None;
                },
                Some(x) => x,
            };
            let (v, jv) = match parse_id(s, jc) {
                None => {
                    return None;
                },
                Some(x) => x,
            };
            f_entity = Some(v);
            j = jv;
        } else if k_health.is_some() {
            if f_health.is_some() {
                return None;
            }
            let jc = match expect_colon(s, k_health.unwrap()) {
                None => {
                    return None;
                },
                Some(x) => x,
            };
            let (v, jv) = match parse_u32(s, jc) {
                None => {
                    return None;
                },
                Some(x) => x,
            };
            f_health = Some(v);
            j = jv;
        } else if k_damage.is_some() {
            if f_damage.is_some() {
                return None;
            }
            let jc = match expect_colon(s, k_damage.unwrap()) {
                None => {
                    return None;
                },
                Some(x) => x,
            };
            let (v, jv) = match parse_u32(s, jc) {
                None => {
                    return None;
                },
                Some(x) => x,
            };
            f_damage = Some(v);
            j = jv;
        } else if k_variant.is_some() {
            if f_variant.is_some() {
                return None;
            }
            let jc = match expect_colon(s, k_variant.unwrap()) {
                None => {
                    return None;
                },
                Some(x) => x,
            };
            let (v, jv) = match parse_variant(s, jc) {
                None => {
                    return None;
                },
                Some(x) => x,
            };
            f_variant = Some(v);
            j = jv;
        } else {
            return None;
        }
        let js = skip_ws(s, j);
        if has_char_at(s, js, ',') {
            j = skip_ws(s, js + 1);
        } else if has_char_at(s, js, '}') {
            j = js + 1;
            more = false;
        } else {
            return None;
        }
    }
    match (f_entity, f_health, f_damage, f_variant) {
        (Some(entity), Some(health), Some(damage), Some(variant)) => Some((V3SaveMonster { entity, health, damage, variant }, j)),
        _ => None,
    }
}

fn parse_v1_players(s: &str, i: usize) -> (r: Option<(Vec<V1SavePlayer>, usize)>)
    ensures
        r matches Some(p) ==> i < p.1 && p.1 as nat <= s@.len() && (forall|k: int|
            0 <= k < p.0@.len() ==> id_wf((#[trigger] p.0@[k]).entity) && opt_id_wf(
                p.0@[k].target,
            )),
{
    let n = s.unicode_len();
    if !has_char_at(s, i, '[') {
        return None;
    }
    let j1 = skip_ws(s, i + 1);
    let mut out: Vec<V1SavePlayer> = Vec::new();
    if has_char_at(s, j1, ']') {
        return Some((out, j1 + 1));
    }
    let (e0, jv) = match parse_v1_player(s, j1) {
        None => {
            return None;
        },
        Some(x) => x,
    };
    out.push(e0);
    let mut j: usize = skip_ws(s, jv);
    while has_char_at(s, j, ',')
        invariant
            i < j,
            j as nat <= s@.len(),
            n as nat == s@.len(),
            forall|k: int|
                0 <= k < out@.len() ==> id_wf((#[trigger] out@[k]).entity) && opt_id_wf(
                    out@[k].target,
                ),
        decreases n - j,
    {
        let (e, j2) = match parse_v1_player(s, j + 1) {
            None => {
                return None;
            },
            Some(x) => x,
        };
        out.push(e);
        j = skip_ws(s, j2);
    }
    if has_char_at(s, j, ']') {
        Some((out, j + 1))
    } else {
        None
    }
}

fn parse_v1_monsters(s: &str, i: usize) -> (r: Option<(Vec<V1SaveMonster>, usize)>)
    ensures
        r matches Some(p) ==> i < p.1 && p.1 as nat <= s@.len() && (forall|k: int|
            0 <= k < p.0@.len() ==> id_wf((#[trigger] p.0@[k]).entity)),
{
    let n = s.unicode_len();
    if !has_char_at(s, i, '[') {
        return None;
    }
    let j1 = skip_ws(s, i + 1);
    let mut out: Vec<V1SaveMonster> = Vec::new();
    if has_char_at(s, j1, ']') {
        return Some((out, j1 + 1));
    }
    let (e0, jv) = match parse_v1_monster(s, j1) {
        None => {
            return None;
        },
        Some(x) => x,
    };
    out.push(e0);
    let mut j: usize = skip_ws(s, jv);
    while has_char_at(s, j, ',')
        invariant
            i < j,
            j as nat <= s@.len(),
            n as nat == s@.len(),
            forall|k: int|
                0 <= k < out@.len() ==> id_wf((#[trigger] out@[k]).entity),
        decreases n - j,
    {
        let (e, j2) = match parse_v1_monster(s, j + 1) {
            None => {
                return None;
            },
            Some(x) => x,
        };
        out.push(e);
        j = skip_ws(s, j2);
    }
    if has_char_at(s, j, ']') {
        Some((out, j + 1))
    } else {
        None
    }
}

fn parse_v2_players(s: &str, i: usize) -> (r: Option<(Vec<V2SavePlayer>, usize)>)
    ensures
        r matches Some(p) ==> i < p.1 && p.1 as nat <= s@.len() && (forall|k: int|
            0 <= k < p.0@.len() ==> id_wf((#[trigger] p.0@[k]).entity) && opt_id_wf(
                p.0@[k].target,
            )),
{
    let n = s.unicode_len();
    if !has_char_at(s, i, '[') {
        return None;
    }
    let j1 = skip_ws(s, i + 1);
    let mut out: Vec<V2SavePlayer> = Vec::new();
    if has_char_at(s, j1, ']') {
        return Some((out, j1 + 1));
    }
    let (e0, jv) = match parse_v2_player(s, j1) {
        None => {
            return None;
        },
        Some(x) => x,
    };
    out.push(e0);
    let mut j: usize = skip_ws(s, jv);
    while has_char_at(s, j, ',')
        invariant
            i < j,
            j as nat <= s@.len(),
            n as nat == s@.len(),
            forall|k: int|
                0 <= k < out@.len() ==> id_wf((#[trigger] out@[k]).entity) && opt_id_wf(
                    out@[k].target,
                ),
        decreases n - j,
    {
        let (e, j2) = match parse_v2_player(s, j + 1) {
            None => {
                return None;
            },
            Some(x) => x,
        };
        out.push(e);
        j = skip_ws(s, j2);
    }
    if has_char_at(s, j, ']') {
        Some((out, j + 1))
    } else {
        None
    }
}

fn parse_v2_monsters(s: &str, i: usize) -> (r: Option<(Vec<V2SaveMonster>, usize)>)
    ensures
        r matches Some(p) ==> i < p.1 && p.1 as nat <= s@.len() && (forall|k: int|
            0 <= k < p.0@.len() ==> id_wf((#[trigger] p.0@[k]).entity)),
{
    let n = s.unicode_len();
    if !has_char_at(s, i, '[') {
        return None;
    }
    let j1 = skip_ws(s, i + 1);
    let mut out: Vec<V2SaveMonster> = Vec::new();
    if has_char_at(s, j1, ']') {
        return Some((out, j1 + 1));
    }
    let (e0, jv) = match parse_v2_monster(s, j1) {
        None => {
            return None;
        },
        Some(x) => x,
    };
    out.push(e0);
    let mut j: usize = skip_ws(s, jv);
    while has_char_at(s, j, ',')
        invariant
            i < j,
            j as nat <= s@.len(),
            n as nat == s@.len(),
            forall|k: int|
                0 <= k < out@.len() ==> id_wf((#[trigger] out@[k]).entity),
        decreases n - j,
    {
        let (e, j2) = match parse_v2_monster(s, j + 1) {
            None => {
                return None;
            },
            Some(x) => x,
        };
        out.push(e);
        j = skip_ws(s, j2);
    }
    if has_char_at(s, j, ']') {
        Some((out, j + 1))
    } else {
        None
    }
}

fn parse_v3_players(s: &str, i: usize) -> (r: Option<(Vec<V3SavePlayer>, usize)>)
    ensures
        r matches Some(p) ==> i < p.1 && p.1 as nat <= s@.len() && (forall|k: int|
            0 <= k < p.0@.len() ==> id_wf((#[trigger] p.0@[k]).entity) && opt_id_wf(
                p.0@[k].target,
            )),
{
    let n = s.unicode_len();
    if !has_char_at(s, i, '[') {
        return None;
    }
    let j1 = skip_ws(s, i + 1);
    let mut out: Vec<V3SavePlayer> = Vec::new();
    if has_char_at(s, j1, ']') {
        return Some((out, j1 + 1));
    }
    let (e0, jv) = match parse_v3_player(s, j1) {
        None => {
            return None;
        },
        Some(x) => x,
    };
    out.push(e0);
    let mut j: usize = skip_ws(s, jv);
    while has_char_at(s, j, ',')
        invariant
            i < j,
            j as nat <= s@.len(),
            n as nat == s@.len(),
            forall|k: int|
                0 <= k < out@.len() ==> id_wf((#[trigger] out@[k]).entity) && opt_id_wf(
                    out@[k].target,
                ),
        decreases n - j,
    {
        let (e, j2) = match parse_v3_player(s, j + 1) {
            None => {
                return None;
            },
            Some(x) => x,
        };
        out.push(e);
        j = skip_ws(s, j2);
    }
    if has_char_at(s, j, ']') {
        Some((out, j + 1))
    } else {
        None
    }
}

fn parse_v3_monsters(s: &str, i: usize) -> (r: Option<(Vec<V3SaveMonster>, usize)>)
    ensures
        r matches Some(p) ==> i < p.1 && p.1 as nat <= s@.len() && (forall|k: int|
            0 <= k < p.0@.len() ==> id_wf((#[trigger] p.0@[k]).entity)),
{
    let n = s.unicode_len();
    if !has_char_at(s, i, '[') {
        return None;
    }
    let j1 = skip_ws(s, i + 1);
    let mut out: Vec<V3SaveMonster> = Vec::new();
    if has_char_at(s, j1, ']') {
        return Some((out, j1 + 1));
    }
    let (e0, jv) = match parse_v3_monster(s, j1) {
        None => {
            return None;
        },
        Some(x) => x,
    };
    out.push(e0);
    let mut j: usize = skip_ws(s, jv);
    while has_char_at(s, j, ',')
        invariant
            i < j,
            j as nat <= s@.len(),
            n as nat == s@.len(),
            forall|k: int|
                0 <= k < out@.len() ==> id_wf((#[trigger] out@[k]).entity),
        decreases n - j,
    {
        let (e, j2) = match parse_v3_monster(s, j + 1) {
            None => {
                return None;
            },
            Some(x) => x,
        };
        out.push(e);
        j = skip_ws(s, j2);
    }
    if has_char_at(s, j, ']') {
        Some((out, j + 1))
    } else {
        None
    }
}

fn parse_v1_payload(s: &str, i: usize) -> (r: Option<(V1SaveState, usize)>)
    ensures
        r matches Some(p) ==> p.1 as nat <= s@.len() && crate::schema::v1_wf(p.0),
{
    let n = s.unicode_len();
    let j0 = skip_ws(s, i);
    if !has_char_at(s, j0, '{') {
        return None;
    }
    let mut j: usize = skip_ws(s, j0 + 1);
    let mut players: Option<Vec<V1SavePlayer>> = None;
    let mut monsters: Option<Vec<V1SaveMonster>> = None;
    let mut more = true;
    while more
        invariant
            j as nat <= s@.len(),
            n as nat == s@.len(),
            players matches Some(v) ==> (forall|k: int| 0 <= k < v@.len() ==> id_wf((#[trigger] v@[k]).entity) && opt_id_wf(
                v@[k].target,
            )),
            monsters matches Some(v) ==> (forall|k: int| 0 <= k < v@.len() ==> id_wf((#[trigger] v@[k]).entity)),
        decreases n - j,
    {
        let k_players = expect(s, j, "\"players\"");
        let k_monsters = expect(s, j, "\"monsters\"");
        if k_players.is_some() {
            if players.is_some() {
                return None;
            }
            let jc = match expect_colon(s, k_players.unwrap()) {
                None => {
                    return None;
                },
                Some(x) => x,
            };
            let (v, jv) = match parse_v1_players(s, jc) {
                None => {
                    return None;
                },
                Some(x) => x,
            };
            players = Some(v);
            j = jv;
        } else if k_monsters.is_some() {
            if monsters.is_some() {
                return None;
            }
            let jc = match expect_colon(s, k_monsters.unwrap()) {
                None => {
                    return None;
                },
                Some(x) => x,
            };
            let (v, jv) = match parse_v1_monsters(s, jc) {
                None => {
                    return None;
                },
                Some(x) => x,
            };
            monsters = Some(v);
            j = jv;
        } else {
            return None;
        }
        let js = skip_ws(s, j);
        if has_char_at(s, js, ',') {
            j = skip_ws(s, js + 1);
        } else if has_char_at(s, js, '}') {
            j = js + 1;
            more = false;
        } else {
            return None;
        }
    }
    match (players, monsters) {
        (Some(players), Some(monsters)) => Some((V1SaveState { players, monsters }, j)),
        _ => None,
    }
}

fn parse_v2_payload(s: &str, i: usize) -> (r: Option<(V2SaveState, usize)>)
    ensures
        r matches Some(p) ==> p.1 as nat <= s@.len() && crate::schema::v2_wf(p.0),
{
    let n = s.unicode_len();
    let j0 = skip_ws(s, i);
    if !has_char_at(s, j0, '{') {
        return None;
    }
    let mut j: usize = skip_ws(s, j0 + 1);
    let mut players: Option<Vec<V2SavePlayer>> = None;
    let mut monsters: Option<Vec<V2SaveMonster>> = None;
    let mut more = true;
    while more
        invariant
            j as nat <= s@.len(),
            n as nat == s@.len(),
            players matches Some(v) ==> (forall|k: int| 0 <= k < v@.len() ==> id_wf((#[trigger] v@[k]).entity) && opt_id_wf(
                v@[k].target,
            )),
            monsters matches Some(v) ==> (forall|k: int| 0 <= k < v@.len() ==> id_wf((#[trigger] v@[k]).entity)),
        decreases n - j,
    {
        let k_players = expect(s, j, "\"players\"");
        let k_monsters = expect(s, j, "\"monsters\"");
        if k_players.is_some() {
            if players.is_some() {
                return None;
            }
            let jc = match expect_colon(s, k_players.unwrap()) {
                None => {
                    return None;
                },
                Some(x) => x,
            };
            let (v, jv) = match parse_v2_players(s, jc) {
                None => {
                    return None;
                },
                Some(x) => x,
            };
            players = Some(v);
            j = jv;
        } else if k_monsters.is_some() {
            if monsters.is_some() {
                return None;
            }
            let jc = match expect_colon(s, k_monsters.unwrap()) {
                None => {
                    return None;
                },
                Some(x) => x,
            };
            let (v, jv) = match parse_v2_monsters(s, jc) {
                None => {
                    return None;
                },
                Some(x) => x,
            };
            monsters = Some(v);
            j = jv;
        } else {
            return None;
        }
        let js = skip_ws(s, j);
        if has_char_at(s, js, ',') {
            j = skip_ws(s, js + 1);
        } else if has_char_at(s, js, '}') {
            j = js + 1;
            more = false;
        } else {
            return None;
        }
    }
    match (players, monsters) {
        (Some(players), Some(monsters)) => Some((V2SaveState { players, monsters }, j)),
        _ => None,
    }
}

fn parse_v3_payload(s: &str, i: usize) -> (r: Option<(V3SaveState, usize)>)
    ensures
        r matches Some(p) ==> p.1 as nat <= s@.len() && crate::schema::v3_wf(p.0),
{
    let n = s.unicode_len();
    let j0 = skip_ws(s, i);
    if !has_char_at(s, j0, '{') {
        return None;
    }
    let mut j: usize = skip_ws(s, j0 + 1);
    let mut players: Option<Vec<V3SavePlayer>> = None;
    let mut monsters: Option<Vec<V3SaveMonster>> = None;
    let mut more = true;
    while more
        invariant
            j as nat <= s@.len(),
            n as nat == s@.len(),
            players matches Some(v) ==> (forall|k: int| 0 <= k < v@.len() ==> id_wf((#[trigger] v@[k]).entity) && opt_id_wf(
                v@[k].target,
            )),
            monsters matches Some(v) ==> (forall|k: int| 0 <= k < v@.len() ==> id_wf((#[trigger] v@[k]).entity)),
        decreases n - j,
    {
        let k_players = expect(s, j, "\"players\"");
        let k_monsters = expect(s, j, "\"monsters\"");
        if k_players.is_some() {
            if players.is_some() {
                return None;
            }
            let jc = match expect_colon(s, k_players.unwrap()) {
                None => {
                    return None;
                },
                Some(x) => x,
            };
            let (v, jv) = match parse_v3_players(s, jc) {
                None => {
                    return None;
                },
                Some(x) => x,
            };
            players = Some(v);
            j = jv;
        } else if k_monsters.is_some() {
            if monsters.is_some() {
                return None;
            }
            let jc = match expect_colon(s, k_monsters.unwrap()) {
                None => {
                    return None;
                },
                Some(x) => x,
            };
            let (v, jv) = match parse_v3_monsters(s, jc) {
                None => {
                    return None;
                },
                Some(x) => x,
            };
            monsters = Some(v);
            j = jv;
        } else {
            return None;
        }
        let js = skip_ws(s, j);
        if has_char_at(s, js, ',') {
            j = skip_ws(s, js + 1);
        } else if has_char_at(s, js, '}') {
            j = js + 1;
            more = false;
        } else {
            return None;
        }
    }
    match (players, monsters) {
        (Some(players), Some(monsters)) => Some((V3SaveState { players, monsters }, j)),
        _ => None,
    }
}

// ---------------------------------------------------------------------
// Decoding.
// ---------------------------------------------------------------------
impl GameState {
    /// Parses the envelope, reads the tag, and deserializes the payload
    /// strictly against the one schema named by that tag, selected before
    /// any payload parsing — never by trial across schemas. The payload is
    /// read as JSON: whitespace between tokens and the order of its
    /// attributes are irrelevant; an unknown, duplicate or missing
    /// attribute is rejected. The envelope framing itself is the exact
    /// grammar `envelope_parts`. The error kinds are exact: a broken
    /// envelope is `MalformedEnvelope`, a well-framed envelope with a tag
    /// outside the closed set is `UnknownVersion` (never a fallback
    /// version), and a named version whose payload does not satisfy that
    /// schema is `SchemaMismatch`. Together with
    /// `lemma_canonical_envelope` this means canonical text is never
    /// refused as a malformed envelope or an unknown version.
    pub fn decode(s: &str) -> (r: Result<GameState, MigrationError>)
        ensures
            r matches Ok(g) ==> g.wf() && (envelope_parts(s@) matches Some(p) && p.0
                == version_tag(g)),
            (r == Err::<GameState, MigrationError>(MigrationError::MalformedEnvelope)) <==> (
            envelope_parts(s@) is None),
            (r == Err::<GameState, MigrationError>(MigrationError::UnknownVersion)) <==> (
            envelope_parts(s@) matches Some(p) && !known_tag(p.0)),
            r matches Err(e) ==> (e is MalformedEnvelope || e is UnknownVersion
                || e is SchemaMismatch),
    {
        proof {
            reveal_strlit("{\"version\":\"1.0\",\"data\":");
            reveal_strlit("{\"version\":\"2.0\",\"data\":");
            reveal_strlit("{\"version\":\"3.0\",\"data\":");
            reveal_strlit("{\"version\":\"");
            reveal_strlit("\",\"data\":");
            reveal_strlit("1.0");
            reveal_strlit("2.0");
            reveal_strlit("3.0");
        }
        let n = s.unicode_len();
        if n == 0 {
            return Err(MigrationError::MalformedEnvelope);
        }
        if !has_char_at(s, n - 1, '}') {
            return Err(MigrationError::MalformedEnvelope);
        }
        if str_eq_at(s, 0, "{\"version\":\"1.0\",\"data\":") {
            proof {
                let pre = "{\"version\":\"1.0\",\"data\":"@;
                assert(pre.len() == 24);
                assert forall|k: int| 0 <= k < 24 implies #[trigger] s@[k] == pre[k] by {
                    assert(s@.subrange(0, 24)[k] == s@[k]);
                }
                assert(s@.subrange(0, 12) =~= "{\"version\":\""@);
                assert(s@.subrange(12, 15) =~= "1.0"@);
                assert(s@.subrange(15, 24) =~= "\",\"data\":"@);
                lemma_branch_parts(s@, "1.0"@);
            }
            match parse_v1_payload(s, 24) {
                None => Err(MigrationError::SchemaMismatch),
                Some((st, jend)) => {
                    let jw = skip_ws(s, jend);
                    if jw == n - 1 {
                        Ok(GameState::V1_0(st))
                    } else {
                        Err(MigrationError::SchemaMismatch)
                    }
                },
            }
        } else if str_eq_at(s, 0, "{\"version\":\"2.0\",\"data\":") {
            proof {
                let pre = "{\"version\":\"2.0\",\"data\":"@;
                assert(pre.len() == 24);
                assert forall|k: int| 0 <= k < 24 implies #[trigger] s@[k] == pre[k] by {
                    assert(s@.subrange(0, 24)[k] == s@[k]);
                }
                assert(s@.subrange(0, 12) =~= "{\"version\":\""@);
                assert(s@.subrange(12, 15) =~= "2.0"@);
                assert(s@.subrange(15, 24) =~= "\",\"data\":"@);
                lemma_branch_parts(s@, "2.0"@);
            }
            match parse_v2_payload(s, 24) {
                None => Err(MigrationError::SchemaMismatch),
                Some((st, jend)) => {
                    let jw = skip_ws(s, jend);
                    if jw == n - 1 {
                        Ok(GameState::V2_0(st))
                    } else {
                        Err(MigrationError::SchemaMismatch)
                    }
                },
            }
        } else if str_eq_at(s, 0, "{\"version\":\"3.0\",\"data\":") {
            proof {
                let pre = "{\"version\":\"3.0\",\"data\":"@;
                assert(pre.len() == 24);
                assert forall|k: int| 0 <= k < 24 implies #[trigger] s@[k] == pre[k] by {
                    assert(s@.subrange(0, 24)[k] == s@[k]);
                }
                assert(s@.subrange(0, 12) =~= "{\"version\":\""@);
                assert(s@.subrange(12, 15) =~= "3.0"@);
                assert(s@.subrange(15, 24) =~= "\",\"data\":"@);
                lemma_branch_parts(s@, "3.0"@);
            }
            match parse_v3_payload(s, 24) {
                None => Err(MigrationError::SchemaMismatch),
                Some((st, jend)) => {
                    let jw = skip_ws(s, jend);
                    if jw == n - 1 {
                        Ok(GameState::V3_0(st))
                    } else {
                        Err(MigrationError::SchemaMismatch)
                    }
                },
            }
        } else {
            // no canonical prefix: either the framing is broken, or it
            // holds a tag outside the declared set
            if !str_eq_at(s, 0, "{\"version\":\"") {
                return Err(MigrationError::MalformedEnvelope);
            }
            let q = match find_quote(s, 12) {
                None => {
                    return Err(MigrationError::MalformedEnvelope);
                },
                Some(q) => q,
            };
            proof {
                lemma_quote_pos_props(s@, 12, q as int);
            }
            if n < 10 || q > n - 10 {
                return Err(MigrationError::MalformedEnvelope);
            }
            if !str_eq_at(s, q, "\",\"data\":") {
                return Err(MigrationError::MalformedEnvelope);
            }
            proof {
                let tag = s@.subrange(12, q as int);
                let payload = s@.subrange(q + 9, s@.len() - 1);
                assert(envelope_parts(s@) == Some((tag, payload)));
                if tag == "1.0"@ {
                    assert("{\"version\":\"1.0\",\"data\":"@ =~= "{\"version\":\""@
                        + "1.0"@ + "\",\"data\":"@);
                    lemma_known_tag_prefix(s@, tag, "{\"version\":\"1.0\",\"data\":"@);
                    assert(false);
                }
                if tag == "2.0"@ {
                    assert("{\"version\":\"2.0\",\"data\":"@ =~= "{\"version\":\""@
                        + "2.0"@ + "\",\"data\":"@);
                    lemma_known_tag_prefix(s@, tag, "{\"version\":\"2.0\",\"data\":"@);
                    assert(false);
                }
                if tag == "3.0"@ {
                    assert("{\"version\":\"3.0\",\"data\":"@ =~= "{\"version\":\""@
                        + "3.0"@ + "\",\"data\":"@);
                    lemma_known_tag_prefix(s@, tag, "{\"version\":\"3.0\",\"data\":"@);
                    assert(false);
                }
            }
            Err(MigrationError::UnknownVersion)
        }
    }

    /// Loads persisted text: decodes it strictly and, on success, runs
    /// the decoded snapshot through the whole upgrade chain, so the
    /// caller always receives the latest version. The errors are exactly
    /// those of decoding.
    pub fn init_from_json(s: &str) -> (r: Result<GameState, MigrationError>)
        ensures
            r matches Ok(g) ==> g is V3_0 && g.wf() && exists|d: GameState|
                #[trigger] upgraded_to_latest(d, g) && d.wf() && (envelope_parts(s@) matches Some(
                    p,
                ) && p.0 == version_tag(d)),
            (r == Err::<GameState, MigrationError>(MigrationError::MalformedEnvelope)) <==> (
            envelope_parts(s@) is None),
            (r == Err::<GameState, MigrationError>(MigrationError::UnknownVersion)) <==> (
            envelope_parts(s@) matches Some(p) && !known_tag(p.0)),
            r matches Err(e) ==> (e is MalformedEnvelope || e is UnknownVersion
                || e is SchemaMismatch),
    {
        let d = match GameState::decode(s) {
            Ok(d) => d,
            Err(e) => {
                return Err(e);
            },
        };
        let ghost dg = d;
        let g = d.upgrade_to_latest();
        proof {
            crate::engine::lemma_upgrade_preserves_wf(dg, g);
        }
        Ok(g)
    }
}

} // verus!
