use crate::engine::GameState;
use crate::ident::Identifier;
use crate::schema::V1SaveMonster;
use crate::schema::V1SavePlayer;
use crate::schema::V1SaveState;
use crate::schema::V2SaveMonster;
use crate::schema::V2SavePlayer;
use crate::schema::V2SaveState;
use crate::schema::V3MonsterVariant;
use crate::schema::V3SaveMonster;
use crate::schema::V3SavePlayer;
use crate::schema::V3SaveState;
use vstd::prelude::*;
use vstd::string::StrSliceExecFns;
use vstd::string::StringExecFns;

verus! {

// ---------------------------------------------------------------------
// The wire format, stated as a specification. A snapshot is persisted as
// the canonical JSON text `{"version":"<tag>","data":<payload>}` with the
// payload's attributes in declaration order and no interior whitespace.
// ---------------------------------------------------------------------
/// The character standing for one decimal digit.
pub open spec fn digit_char(d: int) -> char {
    if d == 0 {
        '0'
    } else if d == 1 {
        '1'
    } else if d == 2 {
        '2'
    } else if d == 3 {
        '3'
    } else if d == 4 {
        '4'
    } else if d == 5 {
        '5'
    } else if d == 6 {
        '6'
    } else if d == 7 {
        '7'
    } else if d == 8 {
        '8'
    } else {
        '9'
    }
}

/// Canonical decimal numeral of a nonnegative integer: no sign, no
/// leading zeros.
pub open spec fn dec_spec(n: int) -> Seq<char>
    recommends
        n >= 0,
    decreases n,
{
    if n < 10 {
        seq![digit_char(n)]
    } else {
        dec_spec(n / 10).push(digit_char(n % 10))
    }
}

/// Value of an all-digit text read back as a number.
spec fn dec_val(t: Seq<char>) -> int
    decreases t.len(),
{
    if t.len() == 0 {
        0
    } else {
        dec_val(t.drop_last()) * 10 + digit_val(t.last())
    }
}

/// The digit value of one digit character.
spec fn digit_val(c: char) -> int {
    if c == '0' {
        0
    } else if c == '1' {
        1
    } else if c == '2' {
        2
    } else if c == '3' {
        3
    } else if c == '4' {
        4
    } else if c == '5' {
        5
    } else if c == '6' {
        6
    } else if c == '7' {
        7
    } else if c == '8' {
        8
    } else {
        9
    }
}

proof fn lemma_dec_val(n: int)
    requires
        n >= 0,
    ensures
        dec_val(dec_spec(n)) == n,
    decreases n,
{
    if n < 10 {
        assert(dec_spec(n).drop_last() =~= Seq::<char>::empty());
        assert(dec_spec(n).last() == digit_char(n));
        assert(digit_val(digit_char(n)) == n);
        assert(dec_val(Seq::<char>::empty()) == 0);
    } else {
        lemma_dec_val(n / 10);
        assert(dec_spec(n).drop_last() =~= dec_spec(n / 10));
        assert(dec_spec(n).last() == digit_char(n % 10));
        assert(digit_val(digit_char(n % 10)) == n % 10);
        assert(n == (n / 10) * 10 + n % 10) by (nonlinear_arith)
            requires
                n >= 10,
        ;
    }
}

/// The canonical numeral of a number determines it: two numbers with the
/// same numeral are equal. This is the numeral-level piece of the claim
/// that an encoding determines its snapshot.
pub proof fn lemma_dec_injective(a: int, b: int)
    requires
        a >= 0,
        b >= 0,
        dec_spec(a) == dec_spec(b),
    ensures
        a == b,
{
    lemma_dec_val(a);
    lemma_dec_val(b);
}

/// An optional identifier on the wire: `null`, or its packed value.
pub open spec fn ser_opt_id(t: Option<Identifier>) -> Seq<char> {
    match t {
        None => "null"@,
        Some(id) => dec_spec(id.bits()),
    }
}

/// Whether a character is one of the ten digit characters.
pub open spec fn is_digit_char(c: char) -> bool {
    c == '0' || c == '1' || c == '2' || c == '3' || c == '4' || c == '5' || c == '6' || c == '7'
        || c == '8' || c == '9'
}

proof fn lemma_dec_digits(n: int)
    ensures
        dec_spec(n).len() >= 1,
        forall|k: int| 0 <= k < dec_spec(n).len() ==> is_digit_char(#[trigger] dec_spec(n)[k]),
    decreases n,
{
    if n < 10 {
    } else {
        lemma_dec_digits(n / 10);
        assert forall|k: int| 0 <= k < dec_spec(n).len() implies is_digit_char(
            #[trigger] dec_spec(n)[k],
        ) by {
            if k < dec_spec(n).len() - 1 {
                assert(dec_spec(n)[k] == dec_spec(n / 10)[k]);
            } else {
                assert(dec_spec(n)[k] == digit_char(n % 10));
            }
        }
    }
}

/// The wire form of a reference field determines it: an absent reference
/// (`null`) can never collide with an identifier, and equal wire forms
/// mean equal identifiers. This is the reference-field piece of the
/// claim that an encoding determines its snapshot.
pub proof fn lemma_opt_id_injective(t1: Option<Identifier>, t2: Option<Identifier>)
    requires
        crate::schema::opt_id_wf(t1),
        crate::schema::opt_id_wf(t2),
        ser_opt_id(t1) == ser_opt_id(t2),
    ensures
        t1 == t2,
{
    reveal_strlit("null");
    match (t1, t2) {
        (None, None) => {},
        (Some(a), Some(b)) => {
            lemma_dec_injective(a.bits(), b.bits());
            crate::ident::lemma_bits_injective(a, b);
        },
        (None, Some(b)) => {
            lemma_dec_digits(b.bits());
            assert(ser_opt_id(t2)[0] == "null"@[0]);
            assert(false);
        },
        (Some(a), None) => {
            lemma_dec_digits(a.bits());
            assert(ser_opt_id(t1)[0] == "null"@[0]);
            assert(false);
        },
    }
}

/// A monster variant on the wire: the quoted variant name.
pub open spec fn ser_variant(v: V3MonsterVariant) -> Seq<char> {
    match v {
        V3MonsterVariant::Angry => "\"Angry\""@,
        V3MonsterVariant::Scary => "\"Scary\""@,
    }
}

pub open spec fn ser_v1_player(p: V1SavePlayer) -> Seq<char> {
    "{\"entity\":"@ + dec_spec(p.entity.bits()) + ",\"health\":"@ + dec_spec(p.health as int)
        + ",\"level\":"@ + dec_spec(p.level as int) + ",\"target\":"@ + ser_opt_id(p.target)
        + "}"@
}

pub open spec fn ser_v1_monster(m: V1SaveMonster) -> Seq<char> {
    "{\"entity\":"@ + dec_spec(m.entity.bits()) + ",\"health\":"@ + dec_spec(m.health as int)
        + "}"@
}

pub open spec fn ser_v2_player(p: V2SavePlayer) -> Seq<char> {
    "{\"entity\":"@ + dec_spec(p.entity.bits()) + ",\"health\":"@ + dec_spec(p.health as int)
        + ",\"level\":"@ + dec_spec(p.level as int) + ",\"target\":"@ + ser_opt_id(p.target)
        + ",\"exp\":"@ + dec_spec(p.exp as int) + ",\"damage\":"@ + dec_spec(p.damage as int)
        + "}"@
}

pub open spec fn ser_v2_monster(m: V2SaveMonster) -> Seq<char> {
    "{\"entity\":"@ + dec_spec(m.entity.bits()) + ",\"health\":"@ + dec_spec(m.health as int)
        + ",\"damage\":"@ + dec_spec(m.damage as int) + "}"@
}

pub open spec fn ser_v3_player(p: V3SavePlayer) -> Seq<char> {
    "{\"entity\":"@ + dec_spec(p.entity.bits()) + ",\"health\":"@ + dec_spec(p.health as int)
        + ",\"level\":"@ + dec_spec(p.level as int) + ",\"target\":"@ + ser_opt_id(p.target)
        + ",\"damage\":"@ + dec_spec(p.damage as int) + "}"@
}

pub open spec fn ser_v3_monster(m: V3SaveMonster) -> Seq<char> {
    "{\"entity\":"@ + dec_spec(m.entity.bits()) + ",\"health\":"@ + dec_spec(m.health as int)
        + ",\"damage\":"@ + dec_spec(m.damage as int) + ",\"variant\":"@ + ser_variant(m.variant)
        + "}"@
}

/// Comma-separated concatenation of already serialized elements.
pub open spec fn ser_list(elems: Seq<Seq<char>>) -> Seq<char>
    decreases elems.len(),
{
    if elems.len() == 0 {
        Seq::empty()
    } else if elems.len() == 1 {
        elems[0]
    } else {
        elems[0] + ","@ + ser_list(elems.drop_first())
    }
}

pub open spec fn ser_v1_payload(s: V1SaveState) -> Seq<char> {
    "{\"players\":["@ + ser_list(s.players@.map_values(|p: V1SavePlayer| ser_v1_player(p)))
        + "],\"monsters\":["@ + ser_list(
        s.monsters@.map_values(|m: V1SaveMonster| ser_v1_monster(m)),
    ) + "]}"@
}

pub open spec fn ser_v2_payload(s: V2SaveState) -> Seq<char> {
    "{\"players\":["@ + ser_list(s.players@.map_values(|p: V2SavePlayer| ser_v2_player(p)))
        + "],\"monsters\":["@ + ser_list(
        s.monsters@.map_values(|m: V2SaveMonster| ser_v2_monster(m)),
    ) + "]}"@
}

pub open spec fn ser_v3_payload(s: V3SaveState) -> Seq<char> {
    "{\"players\":["@ + ser_list(s.players@.map_values(|p: V3SavePlayer| ser_v3_player(p)))
        + "],\"monsters\":["@ + ser_list(
        s.monsters@.map_values(|m: V3SaveMonster| ser_v3_monster(m)),
    ) + "]}"@
}

/// The tag that names the version a snapshot is shaped by.
pub open spec fn version_tag(g: GameState) -> Seq<char> {
    match g {
        GameState::V1_0(_) => "1.0"@,
        GameState::V2_0(_) => "2.0"@,
        GameState::V3_0(_) => "3.0"@,
    }
}

/// The whole envelope: each version is tagged with its own tag, never
/// silently promoted.
pub open spec fn ser_state(g: GameState) -> Seq<char> {
    match g {
        GameState::V1_0(s) => "{\"version\":\"1.0\",\"data\":"@ + ser_v1_payload(s) + "}"@,
        GameState::V2_0(s) => "{\"version\":\"2.0\",\"data\":"@ + ser_v2_payload(s) + "}"@,
        GameState::V3_0(s) => "{\"version\":\"3.0\",\"data\":"@ + ser_v3_payload(s) + "}"@,
    }
}

/// Appending one element to a list serializes as the list plus a comma
/// and the element (the comma only between elements).
proof fn lemma_ser_list_push(elems: Seq<Seq<char>>, x: Seq<char>)
    ensures
        ser_list(elems.push(x)) == if elems.len() == 0 {
            x
        } else {
            ser_list(elems) + ","@ + x
        },
    decreases elems.len(),
{
    if elems.len() == 0 {
        assert(elems.push(x).len() == 1);
        assert(elems.push(x)[0] == x);
    } else if elems.len() == 1 {
        assert(elems.push(x).drop_first() =~= seq![x]);
        assert(ser_list(elems.push(x).drop_first()) == ser_list(seq![x]));
        assert(seq![x].len() == 1);
        assert(ser_list(seq![x]) == x);
        assert(elems.push(x)[0] == elems[0]);
        assert(ser_list(elems.push(x)) == elems[0] + ","@ + x);
        assert(ser_list(elems) == elems[0]);
    } else {
        assert(elems.push(x).drop_first() =~= elems.drop_first().push(x));
        lemma_ser_list_push(elems.drop_first(), x);
        assert(ser_list(elems.push(x)) == elems[0] + ","@ + (ser_list(elems.drop_first()) + ","@
            + x));
        assert(elems[0] + ","@ + (ser_list(elems.drop_first()) + ","@ + x) =~= (elems[0] + ","@
            + ser_list(elems.drop_first())) + ","@ + x);
    }
}

// ---------------------------------------------------------------------
// The encoder, proved to produce exactly the specified text.
// ---------------------------------------------------------------------
/// The single character standing for one digit value.
fn digit_string(d: u64) -> (r: &'static str)
    requires
        d < 10,
    ensures
        r@ == seq![digit_char(d as int)],
{
    proof {
        reveal_strlit("0");
        reveal_strlit("1");
        reveal_strlit("2");
        reveal_strlit("3");
        reveal_strlit("4");
        reveal_strlit("5");
        reveal_strlit("6");
        reveal_strlit("7");
        reveal_strlit("8");
        reveal_strlit("9");
    }
    let r = if d == 0 {
        "0"
    } else if d == 1 {
        "1"
    } else if d == 2 {
        "2"
    } else if d == 3 {
        "3"
    } else if d == 4 {
        "4"
    } else if d == 5 {
        "5"
    } else if d == 6 {
        "6"
    } else if d == 7 {
        "7"
    } else if d == 8 {
        "8"
    } else {
        "9"
    };
    proof {
        assert(r@ =~= seq![digit_char(d as int)]);
    }
    r
}

/// Writes the canonical decimal numeral of `n`.
fn u64_to_string(n: u64) -> (r: String)
    ensures
        r@ == dec_spec(n as int),
    decreases n,
{
    if n < 10 {
        String::from_str(digit_string(n))
    } else {
        let mut s = u64_to_string(n / 10);
        s.append(digit_string(n % 10));
        proof {
            assert(dec_spec((n / 10) as int) + seq![digit_char((n % 10) as int)] =~= dec_spec(
                (n / 10) as int,
            ).push(digit_char((n % 10) as int)));
        }
        s
    }
}

fn append_opt_id(out: &mut String, t: &Option<Identifier>)
    ensures
        final(out)@ == old(out)@ + ser_opt_id(*t),
{
    match t {
        None => out.append("null"),
        Some(id) => {
            let b = id.to_bits();
            let num = u64_to_string(b);
            out.append(num.as_str());
        },
    }
}

fn append_variant(out: &mut String, v: &V3MonsterVariant)
    ensures
        final(out)@ == old(out)@ + ser_variant(*v),
{
    match v {
        V3MonsterVariant::Angry => out.append("\"Angry\""),
        V3MonsterVariant::Scary => out.append("\"Scary\""),
    }
}

fn append_u32(out: &mut String, n: u32)
    ensures
        final(out)@ == old(out)@ + dec_spec(n as int),
{
    let num = u64_to_string(n as u64);
    out.append(num.as_str());
}

fn append_v1_player(out: &mut String, p: &V1SavePlayer)
    ensures
        final(out)@ == old(out)@ + ser_v1_player(*p),
{
    out.append("{\"entity\":");
    let num = u64_to_string(p.entity.to_bits());
    out.append(num.as_str());
    out.append(",\"health\":");
    append_u32(out, p.health);
    out.append(",\"level\":");
    append_u32(out, p.level);
    out.append(",\"target\":");
    append_opt_id(out, &p.target);
    out.append("}");
    proof {
        assert(out@ =~= old(out)@ + ser_v1_player(*p));
    }
}

fn append_v1_monster(out: &mut String, m: &V1SaveMonster)
    ensures
        final(out)@ == old(out)@ + ser_v1_monster(*m),
{
    out.append("{\"entity\":");
    let num = u64_to_string(m.entity.to_bits());
    out.append(num.as_str());
    out.append(",\"health\":");
    append_u32(out, m.health);
    out.append("}");
    proof {
        assert(out@ =~= old(out)@ + ser_v1_monster(*m));
    }
}

fn append_v2_player(out: &mut String, p: &V2SavePlayer)
    ensures
        final(out)@ == old(out)@ + ser_v2_player(*p),
{
    out.append("{\"entity\":");
    let num = u64_to_string(p.entity.to_bits());
    out.append(num.as_str());
    out.append(",\"health\":");
    append_u32(out, p.health);
    out.append(",\"level\":");
    append_u32(out, p.level);
    out.append(",\"target\":");
    append_opt_id(out, &p.target);
    out.append(",\"exp\":");
    append_u32(out, p.exp);
    out.append(",\"damage\":");
    append_u32(out, p.damage);
    out.append("}");
    proof {
        assert(out@ =~= old(out)@ + ser_v2_player(*p));
    }
}

fn append_v2_monster(out: &mut String, m: &V2SaveMonster)
    ensures
        final(out)@ == old(out)@ + ser_v2_monster(*m),
{
    out.append("{\"entity\":");
    let num = u64_to_string(m.entity.to_bits());
    out.append(num.as_str());
    out.append(",\"health\":");
    append_u32(out, m.health);
    out.append(",\"damage\":");
    append_u32(out, m.damage);
    out.append("}");
    proof {
        assert(out@ =~= old(out)@ + ser_v2_monster(*m));
    }
}

fn append_v3_player(out: &mut String, p: &V3SavePlayer)
    ensures
        final(out)@ == old(out)@ + ser_v3_player(*p),
{
    out.append("{\"entity\":");
    let num = u64_to_string(p.entity.to_bits());
    out.append(num.as_str());
    out.append(",\"health\":");
    append_u32(out, p.health);
    out.append(",\"level\":");
    append_u32(out, p.level);
    out.append(",\"target\":");
    append_opt_id(out, &p.target);
    out.append(",\"damage\":");
    append_u32(out, p.damage);
    out.append("}");
    proof {
        assert(out@ =~= old(out)@ + ser_v3_player(*p));
    }
}

fn append_v3_monster(out: &mut String, m: &V3SaveMonster)
    ensures
        final(out)@ == old(out)@ + ser_v3_monster(*m),
{
    out.append("{\"entity\":");
    let num = u64_to_string(m.entity.to_bits());
    out.append(num.as_str());
    out.append(",\"health\":");
    append_u32(out, m.health);
    out.append(",\"damage\":");
    append_u32(out, m.damage);
    out.append(",\"variant\":");
    append_variant(out, &m.variant);
    out.append("}");
    proof {
        assert(out@ =~= old(out)@ + ser_v3_monster(*m));
    }
}

fn append_v1_payload(out: &mut String, s: &V1SaveState)
    ensures
        final(out)@ == old(out)@ + ser_v1_payload(*s),
{
    out.append("{\"players\":[");
    let ghost base1 = out@;
    let mut i: usize = 0;
    while i < s.players.len()
        invariant
            i <= s.players@.len(),
            out@ == base1 + ser_list(
                s.players@.take(i as int).map_values(|p: V1SavePlayer| ser_v1_player(p)),
            ),
        decreases s.players@.len() - i,
    {
        if i > 0 {
            out.append(",");
        }
        append_v1_player(out, &s.players[i]);
        proof {
            let f = |p: V1SavePlayer| ser_v1_player(p);
            assert(s.players@.take(i + 1).map_values(f) =~= s.players@.take(i as int).map_values(
                f,
            ).push(ser_v1_player(s.players@[i as int])));
            lemma_ser_list_push(
                s.players@.take(i as int).map_values(f),
                ser_v1_player(s.players@[i as int]),
            );
        }
        i += 1;
    }
    proof {
        assert(s.players@.take(s.players@.len() as int) =~= s.players@);
    }
    out.append("],\"monsters\":[");
    let ghost base2 = out@;
    let mut j: usize = 0;
    while j < s.monsters.len()
        invariant
            j <= s.monsters@.len(),
            out@ == base2 + ser_list(
                s.monsters@.take(j as int).map_values(|m: V1SaveMonster| ser_v1_monster(m)),
            ),
        decreases s.monsters@.len() - j,
    {
        if j > 0 {
            out.append(",");
        }
        append_v1_monster(out, &s.monsters[j]);
        proof {
            let f = |m: V1SaveMonster| ser_v1_monster(m);
            assert(s.monsters@.take(j + 1).map_values(f) =~= s.monsters@.take(j as int).map_values(
                f,
            ).push(ser_v1_monster(s.monsters@[j as int])));
            lemma_ser_list_push(
                s.monsters@.take(j as int).map_values(f),
                ser_v1_monster(s.monsters@[j as int]),
            );
        }
        j += 1;
    }
    proof {
        assert(s.monsters@.take(s.monsters@.len() as int) =~= s.monsters@);
    }
    out.append("]}");
    proof {
        assert(out@ =~= old(out)@ + ser_v1_payload(*s));
    }
}

fn append_v2_payload(out: &mut String, s: &V2SaveState)
    ensures
        final(out)@ == old(out)@ + ser_v2_payload(*s),
{
    out.append("{\"players\":[");
    let ghost base1 = out@;
    let mut i: usize = 0;
    while i < s.players.len()
        invariant
            i <= s.players@.len(),
            out@ == base1 + ser_list(
                s.players@.take(i as int).map_values(|p: V2SavePlayer| ser_v2_player(p)),
            ),
        decreases s.players@.len() - i,
    {
        if i > 0 {
            out.append(",");
        }
        append_v2_player(out, &s.players[i]);
        proof {
            let f = |p: V2SavePlayer| ser_v2_player(p);
            assert(s.players@.take(i + 1).map_values(f) =~= s.players@.take(i as int).map_values(
                f,
            ).push(ser_v2_player(s.players@[i as int])));
            lemma_ser_list_push(
                s.players@.take(i as int).map_values(f),
                ser_v2_player(s.players@[i as int]),
            );
        }
        i += 1;
    }
    proof {
        assert(s.players@.take(s.players@.len() as int) =~= s.players@);
    }
    out.append("],\"monsters\":[");
    let ghost base2 = out@;
    let mut j: usize = 0;
    while j < s.monsters.len()
        invariant
            j <= s.monsters@.len(),
            out@ == base2 + ser_list(
                s.monsters@.take(j as int).map_values(|m: V2SaveMonster| ser_v2_monster(m)),
            ),
        decreases s.monsters@.len() - j,
    {
        if j > 0 {
            out.append(",");
        }
        append_v2_monster(out, &s.monsters[j]);
        proof {
            let f = |m: V2SaveMonster| ser_v2_monster(m);
            assert(s.monsters@.take(j + 1).map_values(f) =~= s.monsters@.take(j as int).map_values(
                f,
            ).push(ser_v2_monster(s.monsters@[j as int])));
            lemma_ser_list_push(
                s.monsters@.take(j as int).map_values(f),
                ser_v2_monster(s.monsters@[j as int]),
            );
        }
        j += 1;
    }
    proof {
        assert(s.monsters@.take(s.monsters@.len() as int) =~= s.monsters@);
    }
    out.append("]}");
    proof {
        assert(out@ =~= old(out)@ + ser_v2_payload(*s));
    }
}

fn append_v3_payload(out: &mut String, s: &V3SaveState)
    ensures
        final(out)@ == old(out)@ + ser_v3_payload(*s),
{
    out.append("{\"players\":[");
    let ghost base1 = out@;
    let mut i: usize = 0;
    while i < s.players.len()
        invariant
            i <= s.players@.len(),
            out@ == base1 + ser_list(
                s.players@.take(i as int).map_values(|p: V3SavePlayer| ser_v3_player(p)),
            ),
        decreases s.players@.len() - i,
    {
        if i > 0 {
            out.append(",");
        }
        append_v3_player(out, &s.players[i]);
        proof {
            let f = |p: V3SavePlayer| ser_v3_player(p);
            assert(s.players@.take(i + 1).map_values(f) =~= s.players@.take(i as int).map_values(
                f,
            ).push(ser_v3_player(s.players@[i as int])));
            lemma_ser_list_push(
                s.players@.take(i as int).map_values(f),
                ser_v3_player(s.players@[i as int]),
            );
        }
        i += 1;
    }
    proof {
        assert(s.players@.take(s.players@.len() as int) =~= s.players@);
    }
    out.append("],\"monsters\":[");
    let ghost base2 = out@;
    let mut j: usize = 0;
    while j < s.monsters.len()
        invariant
            j <= s.monsters@.len(),
            out@ == base2 + ser_list(
                s.monsters@.take(j as int).map_values(|m: V3SaveMonster| ser_v3_monster(m)),
            ),
        decreases s.monsters@.len() - j,
    {
        if j > 0 {
            out.append(",");
        }
        append_v3_monster(out, &s.monsters[j]);
        proof {
            let f = |m: V3SaveMonster| ser_v3_monster(m);
            assert(s.monsters@.take(j + 1).map_values(f) =~= s.monsters@.take(j as int).map_values(
                f,
            ).push(ser_v3_monster(s.monsters@[j as int])));
            lemma_ser_list_push(
                s.monsters@.take(j as int).map_values(f),
                ser_v3_monster(s.monsters@[j as int]),
            );
        }
        j += 1;
    }
    proof {
        assert(s.monsters@.take(s.monsters@.len() as int) =~= s.monsters@);
    }
    out.append("]}");
    proof {
        assert(out@ =~= old(out)@ + ser_v3_payload(*s));
    }
}

impl GameState {
    /// Serializes whichever version is currently held, tagged with that
    /// version's own tag. Encoding never upgrades.
    pub fn encode(&self) -> (r: String)
        ensures
            r@ == ser_state(*self),
    {
        let mut out = String::new();
        match self {
            GameState::V1_0(st) => {
                out.append("{\"version\":\"1.0\",\"data\":");
                append_v1_payload(&mut out, st);
                out.append("}");
            },
            GameState::V2_0(st) => {
                out.append("{\"version\":\"2.0\",\"data\":");
                append_v2_payload(&mut out, st);
                out.append("}");
            },
            GameState::V3_0(st) => {
                out.append("{\"version\":\"3.0\",\"data\":");
                append_v3_payload(&mut out, st);
                out.append("}");
            },
        }
        proof {
            assert(out@ =~= ser_state(*self));
        }
        out
    }
}

} // verus!
