//! Rendering of documents as JSON text: what the gene replies carry.

use vstd::prelude::*;
use vstd::string::StrSliceExecFns;
use vstd::string::StringExecFns;

use crate::codec::{dec_str_i64, hex_of, i64_to_dec, u64_to_dec, dec_str};
use crate::docs::{MemeMeta, MemeMetaV};
use crate::id::Id;
use crate::value::{Value, ValueV};

verus! {

/// A string character as it is escaped in the rendering: quotes and
/// backslashes get a backslash, everything else stands as it is.
pub open spec fn escaped_char(c: char) -> Seq<char> {
    if c == '"' {
        seq!['\\', '"']
    } else if c == '\\' {
        seq!['\\', '\\']
    } else {
        seq![c]
    }
}

/// A string as it is escaped in the rendering.
pub open spec fn escape_str(s: Seq<char>) -> Seq<char>
    decreases s.len(),
{
    if s.len() == 0 {
        Seq::empty()
    } else {
        escaped_char(s.first()) + escape_str(s.drop_first())
    }
}

/// The rendering of one field value.
pub open spec fn render_value(v: ValueV) -> Seq<char> {
    match v {
        ValueV::Null => "null"@,
        ValueV::Bool(b) => if b {
            "true"@
        } else {
            "false"@
        },
        ValueV::Int(n) => dec_str_i64(n),
        ValueV::Str(s) => seq!['"'] + escape_str(s) + seq!['"'],
    }
}

/// Append a string to the output, escaped and quoted.
pub fn append_quoted(out: &mut String, s: &str)
    ensures
        final(out)@ == old(out)@ + seq!['"'] + escape_str(s@) + seq!['"'],
{
    proof {
        reveal_strlit("\"");
        reveal_strlit("\\\"");
        reveal_strlit("\\\\");
    }
    out.append("\"");
    let n = s.unicode_len();
    let mut i: usize = 0;
    proof {
        assert(s@.take(0) =~= Seq::<char>::empty());
        assert(escape_str(s@.take(0)) =~= Seq::<char>::empty());
        assert(out@ =~= old(out)@ + seq!['"'] + escape_str(s@.take(0)));
    }
    while i < n
        invariant
            0 <= i <= n,
            n == s@.len(),
            out@ == old(out)@ + seq!['"'] + escape_str(s@.take(i as int)),
        decreases n - i,
    {
        proof {
            reveal_strlit("\\\"");
            reveal_strlit("\\\\");
        }
        let c = s.get_char(i);
        if c == '"' {
            out.append("\\\"");
        } else if c == '\\' {
            out.append("\\\\");
        } else {
            let piece = s.substring_char(i, i + 1);
            out.append(piece);
        }
        proof {
            let t = s@.take(i + 1);
            assert(t.drop_last() =~= s@.take(i as int));
            assert(t.last() == s@[i as int]);
            lemma_escape_snoc(s@, i as int);
            assert(s@.subrange(i as int, i + 1) =~= seq![s@[i as int]]);
            assert(out@ =~= old(out)@ + seq!['"'] + escape_str(s@.take(i + 1)));
        }
        i = i + 1;
    }
    proof {
        assert(s@.take(n as int) =~= s@);
    }
    out.append("\"");
}

pub proof fn lemma_escape_snoc(s: Seq<char>, i: int)
    requires
        0 <= i < s.len(),
    ensures
        escape_str(s.take(i + 1)) == escape_str(s.take(i)) + escaped_char(s[i]),
    decreases i,
{
    if i == 0 {
        assert(s.take(1).first() == s[0]);
        assert(s.take(1).drop_first() =~= s.take(0));
        assert(escape_str(s.take(0)) =~= Seq::<char>::empty());
        assert(escape_str(s.take(1)) =~= escaped_char(s[0]));
        assert(escape_str(s.take(0)) + escaped_char(s[0]) =~= escaped_char(s[0]));
    } else {
        let t1 = s.take(i + 1);
        let t0 = s.take(i);
        assert(t1.first() == s[0]);
        assert(t0.first() == s[0]);
        assert(t1.drop_first() =~= s.drop_first().take(i));
        assert(t0.drop_first() =~= s.drop_first().take(i - 1));
        lemma_escape_snoc(s.drop_first(), i - 1);
        assert(s.drop_first()[i - 1] == s[i]);
        assert(escape_str(t1) == escaped_char(s[0]) + (escape_str(s.drop_first().take(i - 1))
            + escaped_char(s[i])));
        assert(escaped_char(s[0]) + (escape_str(s.drop_first().take(i - 1)) + escaped_char(
            s[i],
        )) =~= (escaped_char(s[0]) + escape_str(s.drop_first().take(i - 1))) + escaped_char(
            s[i],
        ));
    }
}

/// Append the rendering of one field value to the output.
pub fn append_value(out: &mut String, v: &Value)
    ensures
        final(out)@ == old(out)@ + render_value(v@),
{
    match v {
        Value::Null => {
            proof {
                reveal_strlit("null");
            }
            out.append("null");
        },
        Value::Bool(b) => {
            proof {
                reveal_strlit("true");
                reveal_strlit("false");
            }
            if *b {
                out.append("true");
            } else {
                out.append("false");
            }
        },
        Value::Int(n) => {
            let d = i64_to_dec(*n);
            out.append(d.as_str());
        },
        Value::Str(s) => {
            append_quoted(out, s.as_str());
        },
    }
}

/// The rendering of a meme metadata document.
pub open spec fn render_meme_meta(m: MemeMetaV) -> Seq<char> {
    "{\"uid\":\""@ + hex_of(m.uid) + "\",\"oid\":\""@ + hex_of(m.oid) + "\",\"hash\":\""@
        + hex_of(m.hash) + "\",\"size\":"@ + dec_str_i64(m.size) + ",\"pub\":"@ + (if m.public {
        "true"@
    } else {
        "false"@
    }) + ",\"tip\":"@ + dec_str_i64(m.tip) + ",\"eol\":"@ + dec_str_i64(m.eol) + "}"@
}

/// Render a meme metadata document.
pub fn meme_meta_string(m: &MemeMeta) -> (r: String)
    ensures
        r@ == render_meme_meta(m@),
{
    let mut out = String::new();
    out.append("{\"uid\":\"");
    out.append(m.uid.to_hex().as_str());
    out.append("\",\"oid\":\"");
    out.append(m.oid.to_hex().as_str());
    out.append("\",\"hash\":\"");
    out.append(crate::codec::encode_hex(m.hash.as_slice()).as_str());
    out.append("\",\"size\":");
    out.append(i64_to_dec(m.size).as_str());
    out.append(",\"pub\":");
    if m.public {
        out.append("true");
    } else {
        out.append("false");
    }
    out.append(",\"tip\":");
    out.append(i64_to_dec(m.tip).as_str());
    out.append(",\"eol\":");
    out.append(i64_to_dec(m.eol).as_str());
    out.append("}");
    proof {
        assert(out@ =~= render_meme_meta(m@));
    }
    out
}

/// Render an unsigned number, for the output keys `"0"`, `"1"`, and so on.
pub fn u64_string(n: u64) -> (r: String)
    ensures
        r@ == dec_str(n as nat),
{
    u64_to_dec(n)
}

} // verus!
