//! The order-status record and its rendering as a compact JSON
//! array, the body of the web-service route. String content is
//! escaped as JSON requires: quote and backslash with a backslash,
//! control characters with their short escapes or `\u00` and two
//! lower-case hex digits.
use crate::numfmt::{dec_of, hex_char, hex_str, u64_dec};
use vstd::prelude::*;

verus! {

/// A fixed record decoded from the order data resource.
#[derive(Debug)]
pub struct OrderStatus {
    pub order_id: i32,
    pub order_date: String,
    pub order_status: String,
}

/// A character that stands for itself inside a JSON string.
pub open spec fn is_plain(c: char) -> bool {
    c != '"' && c != '\\' && (c as u32) >= 0x20
}

/// The escape of one character.
pub open spec fn esc_char(c: char) -> Seq<char> {
    if c == '"' {
        seq!['\\', '"']
    } else if c == '\\' {
        seq!['\\', '\\']
    } else if c == '\u{8}' {
        seq!['\\', 'b']
    } else if c == '\t' {
        seq!['\\', 't']
    } else if c == '\n' {
        seq!['\\', 'n']
    } else if c == '\u{c}' {
        seq!['\\', 'f']
    } else if c == '\r' {
        seq!['\\', 'r']
    } else if (c as u32) < 0x20 {
        seq!['\\', 'u', '0', '0', hex_char(((c as u32) / 16) as nat), hex_char(
            ((c as u32) % 16) as nat,
        )]
    } else {
        seq![c]
    }
}

/// The escaped content of a JSON string.
pub open spec fn json_escape(s: Seq<char>) -> Seq<char>
    decreases s.len(),
{
    if s.len() == 0 {
        Seq::empty()
    } else {
        esc_char(s[0]) + json_escape(s.drop_first())
    }
}

/// A JSON string: the escaped content in quotes.
pub open spec fn json_str_of(s: Seq<char>) -> Seq<char> {
    "\""@ + json_escape(s) + "\""@
}

/// A signed integer in decimal.
pub open spec fn dec_int(n: int) -> Seq<char> {
    if n < 0 {
        "-"@ + dec_of((-n) as nat)
    } else {
        dec_of(n as nat)
    }
}

/// One record as a JSON object, fields in declaration order.
pub open spec fn json_of_order(o: OrderStatus) -> Seq<char> {
    "{\"order_id\":"@ + dec_int(o.order_id as int) + ",\"order_date\":"@ + json_str_of(
        o.order_date@,
    ) + ",\"order_status\":"@ + json_str_of(o.order_status@) + "}"@
}

/// The records joined with commas.
pub open spec fn json_join(os: Seq<OrderStatus>) -> Seq<char>
    decreases os.len(),
{
    if os.len() == 0 {
        Seq::empty()
    } else if os.len() == 1 {
        json_of_order(os[0])
    } else {
        json_join(os.drop_last()) + ","@ + json_of_order(os.last())
    }
}

/// The whole sequence as a JSON array.
pub open spec fn json_of_orders(os: Seq<OrderStatus>) -> Seq<char> {
    "["@ + json_join(os) + "]"@
}

/// Length of the maximal leading run of plain characters.
pub open spec fn plain_run(s: Seq<char>) -> nat
    decreases s.len(),
{
    if s.len() == 0 || !is_plain(s[0]) {
        0
    } else {
        (1 + plain_run(s.drop_first())) as nat
    }
}

proof fn lemma_plain_run(s: Seq<char>)
    ensures
        plain_run(s) <= s.len(),
        forall|j: int| 0 <= j < plain_run(s) ==> is_plain(#[trigger] s[j]),
        plain_run(s) < s.len() ==> !is_plain(s[plain_run(s) as int]),
    decreases s.len(),
{
    if s.len() == 0 || !is_plain(s[0]) {
    } else {
        lemma_plain_run(s.drop_first());
        assert forall|j: int| 0 <= j < plain_run(s) implies is_plain(#[trigger] s[j]) by {
            if j > 0 {
                assert(is_plain(s.drop_first()[j - 1]));
            }
        }
    }
}

/// Escaping passes a plain prefix through unchanged.
proof fn lemma_escape_plain_prefix(s: Seq<char>, k: int)
    requires
        0 <= k <= s.len(),
        forall|j: int| 0 <= j < k ==> is_plain(#[trigger] s[j]),
    ensures
        json_escape(s) == s.take(k) + json_escape(s.skip(k)),
    decreases k,
{
    if k == 0 {
        assert(s.skip(0) =~= s);
        assert(s.take(0) + json_escape(s) =~= json_escape(s));
    } else {
        assert(is_plain(s[0]));
        assert(esc_char(s[0]) =~= seq![s[0]]);
        lemma_escape_plain_prefix(s.drop_first(), k - 1);
        assert(s.drop_first().take(k - 1) =~= s.take(k).drop_first());
        assert(s.drop_first().skip(k - 1) =~= s.skip(k));
        assert(json_escape(s) =~= s.take(k) + json_escape(s.skip(k)));
    }
}

fn is_plain_exec(c: char) -> (r: bool)
    ensures
        r == is_plain(c),
{
    !(c == '"' || c == '\\' || (c as u32) < 0x20)
}

fn plain_run_exec(s: &str) -> (k: usize)
    ensures
        k == plain_run(s@),
    decreases s@.len(),
{
    let n = s.unicode_len();
    if n == 0 || !is_plain_exec(s.get_char(0)) {
        0
    } else {
        let rest = s.substring_char(1, n);
        assert(rest@ == s@.drop_first());
        let r = plain_run_exec(rest);
        proof {
            lemma_plain_run(rest@);
        }
        1 + r
    }
}

/// Appends the JSON escape of `s` to `out`.
fn append_escaped(out: &mut String, s: &str)
    ensures
        final(out)@ == old(out)@ + json_escape(s@),
    decreases s@.len(),
{
    let n = s.unicode_len();
    let k = plain_run_exec(s);
    proof {
        lemma_plain_run(s@);
        lemma_escape_plain_prefix(s@, k as int);
    }
    out.append(s.substring_char(0, k));
    if k < n {
        let c = s.get_char(k);
        assert(!is_plain(c));
        if c == '"' {
            out.append("\\\"");
            proof {
                reveal_strlit("\\\"");
                assert("\\\""@ =~= esc_char(c));
            }
        } else if c == '\\' {
            out.append("\\\\");
            proof {
                reveal_strlit("\\\\");
                assert("\\\\"@ =~= esc_char(c));
            }
        } else if c == '\u{8}' {
            out.append("\\b");
            proof {
                reveal_strlit("\\b");
                assert("\\b"@ =~= esc_char(c));
            }
        } else if c == '\t' {
            out.append("\\t");
            proof {
                reveal_strlit("\\t");
                assert("\\t"@ =~= esc_char(c));
            }
        } else if c == '\n' {
            out.append("\\n");
            proof {
                reveal_strlit("\\n");
                assert("\\n"@ =~= esc_char(c));
            }
        } else if c == '\u{c}' {
            out.append("\\f");
            proof {
                reveal_strlit("\\f");
                assert("\\f"@ =~= esc_char(c));
            }
        } else if c == '\r' {
            out.append("\\r");
            proof {
                reveal_strlit("\\r");
                assert("\\r"@ =~= esc_char(c));
            }
        } else {
            assert((c as u32) < 0x20);
            out.append("\\u00");
            let u = c as u32;
            out.append(hex_str((u / 16) as u8));
            out.append(hex_str((u % 16) as u8));
            proof {
                reveal_strlit("\\u00");
                assert("\\u00"@ + seq![hex_char((u / 16) as nat)] + seq![
                    hex_char((u % 16) as nat),
                ] =~= esc_char(c));
            }
        }
        let ghost mid = out@;
        let rest = s.substring_char(k + 1, n);
        assert(rest@ == s@.skip(k as int + 1));
        append_escaped(out, rest);
        proof {
            assert(s@.skip(k as int).drop_first() =~= s@.skip(k as int + 1));
            assert(s@.skip(k as int)[0] == s@[k as int]);
            assert(final(out)@ =~= old(out)@ + json_escape(s@));
        }
    } else {
        proof {
            assert(s@.skip(k as int) =~= Seq::<char>::empty());
            assert(final(out)@ =~= old(out)@ + json_escape(s@));
        }
    }
}

/// Appends `s` as a quoted, escaped JSON string.
fn append_json_str(out: &mut String, s: &str)
    ensures
        final(out)@ == old(out)@ + json_str_of(s@),
{
    out.append("\"");
    append_escaped(out, s);
    out.append("\"");
    proof {
        assert(final(out)@ =~= old(out)@ + json_str_of(s@));
    }
}

/// `n` in decimal, with a sign when negative.
pub fn i32_dec(n: i32) -> (r: String)
    ensures
        r@ == dec_int(n as int),
{
    if n < 0 {
        let mut r = String::from_str("-");
        let m = -(n as i64);
        r.append(u64_dec(m as u64).as_str());
        assert(r@ =~= dec_int(n as int));
        r
    } else {
        u64_dec(n as u64)
    }
}

fn append_order(out: &mut String, o: &OrderStatus)
    ensures
        final(out)@ == old(out)@ + json_of_order(*o),
{
    out.append("{\"order_id\":");
    let id = i32_dec(o.order_id);
    out.append(id.as_str());
    out.append(",\"order_date\":");
    append_json_str(out, o.order_date.as_str());
    out.append(",\"order_status\":");
    append_json_str(out, o.order_status.as_str());
    out.append("}");
    proof {
        assert(final(out)@ =~= old(out)@ + json_of_order(*o));
    }
}

/// Renders the records as the compact JSON array the web-service
/// route serves.
pub fn orders_to_json(orders: &Vec<OrderStatus>) -> (r: String)
    ensures
        r@ == json_of_orders(orders@),
{
    let mut out = String::from_str("[");
    let ghost head = out@;
    let n = orders.len();
    let mut i: usize = 0;
    proof {
        assert(orders@.take(0) =~= Seq::<OrderStatus>::empty());
    }
    while i < n
        invariant
            n == orders@.len(),
            i <= n,
            out@ == head + json_join(orders@.take(i as int)),
        decreases n - i,
    {
        if i > 0 {
            out.append(",");
        }
        append_order(&mut out, &orders[i]);
        proof {
            assert(orders@.take(i + 1).drop_last() =~= orders@.take(i as int));
            assert(orders@.take(i + 1).last() == orders@[i as int]);
            assert(out@ =~= head + json_join(orders@.take(i + 1)));
        }
        i += 1;
    }
    out.append("]");
    proof {
        assert(orders@.take(n as int) =~= orders@);
        assert(out@ =~= json_of_orders(orders@));
    }
    out
}

} // verus!
