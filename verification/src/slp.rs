//! The server list ping: the status document, built as literal JSON
//! with exact contents, and the echoed ping.

use vstd::prelude::*;

use crate::packet::client::Pong;
use crate::packet::client::SlpResponse;
use crate::packet::client::StatusPacket;
use crate::packet::server::Ping;

verus! {

/// The status text shown in the server list.
#[derive(Debug, Clone)]
pub struct Description {
    pub text: String,
}

/// One listed player.
#[derive(Debug, Clone)]
pub struct Sample {
    pub name: String,
    pub id: String,
}

/// The player counts and the sample list (absent renders as null).
#[derive(Debug, Clone)]
pub struct Players {
    pub max: i32,
    pub online: i32,
    pub sample: Option<Vec<Sample>>,
}

/// The protocol version advertised.
#[derive(Debug, Clone)]
pub struct Version {
    pub name: String,
    pub protocol: i32,
}

/// The whole status document.
#[derive(Debug, Clone)]
pub struct StatusResponse {
    pub description: Description,
    pub favicon: Option<String>,
    pub players: Players,
    pub version: Version,
}

/// The decimal digit for a value below 10.
pub open spec fn dec_char(n: int) -> char {
    if n == 0 {
        '0'
    } else if n == 1 {
        '1'
    } else if n == 2 {
        '2'
    } else if n == 3 {
        '3'
    } else if n == 4 {
        '4'
    } else if n == 5 {
        '5'
    } else if n == 6 {
        '6'
    } else if n == 7 {
        '7'
    } else if n == 8 {
        '8'
    } else {
        '9'
    }
}

/// The decimal digits of a natural number, most significant first.
pub open spec fn dec_u_chars(n: nat) -> Seq<char>
    decreases n,
{
    if n < 10 {
        seq![dec_char(n as int)]
    } else {
        dec_u_chars(n / 10) + seq![dec_char((n % 10) as int)]
    }
}

/// The decimal form of an integer, with a sign when negative.
pub open spec fn dec_i_chars(n: int) -> Seq<char> {
    if n < 0 {
        seq!['-'] + dec_u_chars((-n) as nat)
    } else {
        dec_u_chars(n as nat)
    }
}

fn dec_str(n: u64) -> (r: &'static str)
    requires
        n < 10,
    ensures
        r@ == seq![dec_char(n as int)],
{
    proof {
        reveal_strlit("0");
        reveal_strlit("1");
        reveal_strlit("2");
        reveal_strlit("3");
        reveal_strlit("4");
        reveal_strlit("5");
        reveal_strlit("6");
        reveal_strlit("7");
        reveal_strlit("8");
        reveal_strlit("9");
    }
    if n == 0 {
        "0"
    } else if n == 1 {
        "1"
    } else if n == 2 {
        "2"
    } else if n == 3 {
        "3"
    } else if n == 4 {
        "4"
    } else if n == 5 {
        "5"
    } else if n == 6 {
        "6"
    } else if n == 7 {
        "7"
    } else if n == 8 {
        "8"
    } else {
        "9"
    }
}

/// Append the decimal digits of `n`.
pub fn push_dec_u64(out: &mut String, n: u64)
    ensures
        final(out)@ == old(out)@ + dec_u_chars(n as nat),
    decreases n,
{
    if n < 10 {
        out.append(dec_str(n));
    } else {
        push_dec_u64(out, n / 10);
        out.append(dec_str(n % 10));
        assert(out@ =~= old(out)@ + dec_u_chars(n as nat));
    }
}

/// Append the decimal form of `n`, sign included.
pub fn push_dec_i32(out: &mut String, n: i32)
    ensures
        final(out)@ == old(out)@ + dec_i_chars(n as int),
{
    proof {
        reveal_strlit("-");
    }
    if n < 0 {
        out.append("-");
        let m: u64 = (-(n as i64)) as u64;
        push_dec_u64(out, m);
        assert(out@ =~= old(out)@ + dec_i_chars(n as int));
    } else {
        push_dec_u64(out, n as u64);
    }
}

/// The sample entries from index `i` on, comma-separated.
pub open spec fn samples_from(ss: Seq<Sample>, i: int) -> Seq<char>
    decreases ss.len() - i,
{
    if i < 0 || i >= ss.len() {
        Seq::empty()
    } else if i + 1 == ss.len() {
        sample_chars(ss[i])
    } else {
        sample_chars(ss[i]) + seq![','] + samples_from(ss, i + 1)
    }
}

/// One sample entry.
pub open spec fn sample_chars(s: Sample) -> Seq<char> {
    "{\"name\":\""@ + s.name@ + "\",\"id\":\""@ + s.id@ + "\"}"@
}

/// The status document as JSON. Text fields are inserted verbatim: the
/// caller supplies text free of characters that would need escaping, as
/// the reference server does.
pub open spec fn status_json_chars(r: &StatusResponse) -> Seq<char> {
    "{\"description\":{\"text\":\""@ + r.description.text@ + "\"},"@ + (match r.favicon {
        Some(f) => "\"favicon\":\""@ + f@ + "\","@,
        None => Seq::<char>::empty(),
    }) + "\"players\":{\"max\":"@ + dec_i_chars(r.players.max as int) + ",\"online\":"@
        + dec_i_chars(r.players.online as int) + ",\"sample\":"@ + (match r.players.sample {
        Some(ss) => seq!['['] + samples_from(ss@, 0) + seq![']'],
        None => "null"@,
    }) + "},\"version\":{\"protocol\":"@ + dec_i_chars(r.version.protocol as int) + ",\"name\":\""@
        + r.version.name@ + "\"}}"@
}

/// Append the sample entries from index `i` on.
fn push_samples(out: &mut String, ss: &Vec<Sample>, i: usize)
    requires
        i <= ss@.len(),
    ensures
        final(out)@ == old(out)@ + samples_from(ss@, i as int),
    decreases ss@.len() - i,
{
    proof {
        reveal_strlit(",");
    }
    if i >= ss.len() {
        assert(out@ =~= old(out)@ + samples_from(ss@, i as int));
        return ;
    }
    out.append("{\"name\":\"");
    out.append(ss[i].name.as_str());
    out.append("\",\"id\":\"");
    out.append(ss[i].id.as_str());
    out.append("\"}");
    if i + 1 < ss.len() {
        out.append(",");
        push_samples(out, ss, i + 1);
    }
    assert(out@ =~= old(out)@ + samples_from(ss@, i as int));
}

/// Render the status document.
pub fn status_json(r: &StatusResponse) -> (out: String)
    ensures
        out@ == status_json_chars(r),
{
    let mut out = String::new();
    out.append("{\"description\":{\"text\":\"");
    out.append(r.description.text.as_str());
    out.append("\"},");
    match &r.favicon {
        Some(f) => {
            out.append("\"favicon\":\"");
            out.append(f.as_str());
            out.append("\",");
        },
        None => {},
    }
    out.append("\"players\":{\"max\":");
    push_dec_i32(&mut out, r.players.max);
    out.append(",\"online\":");
    push_dec_i32(&mut out, r.players.online);
    out.append(",\"sample\":");
    match &r.players.sample {
        Some(ss) => {
            out.append("[");
            proof {
                reveal_strlit("[");
                reveal_strlit("]");
            }
            push_samples(&mut out, ss, 0);
            out.append("]");
        },
        None => {
            out.append("null");
        },
    }
    out.append("},\"version\":{\"protocol\":");
    push_dec_i32(&mut out, r.version.protocol);
    out.append(",\"name\":\"");
    out.append(r.version.name.as_str());
    out.append("\"}}");
    proof {
        assert(out@ =~= status_json_chars(r));
    }
    out
}

/// The status document this server answers with.
pub fn build_status_response(favicon: Option<String>) -> (r: StatusResponse)
    ensures
        r.description.text@ == "this made by naari3 @naari_"@,
        r.players.max == 12345,
        r.players.online == 126534640,
        r.players.sample matches Some(ss) && ss@.len() == 0,
        r.version.name@ == "1.15.2"@,
        r.version.protocol == 578,
        r.favicon == favicon,
{
    StatusResponse {
        description: Description {
            text: <String as vstd::string::StringExecFns>::from_str("this made by naari3 @naari_"),
        },
        favicon,
        players: Players { max: 12345, online: 126534640, sample: Some(Vec::new()) },
        version: Version {
            name: <String as vstd::string::StringExecFns>::from_str("1.15.2"),
            protocol: 578,
        },
    }
}

/// The reply to a status request: the rendered document behind its
/// packet id.
pub fn handle_slp_status(r: &StatusResponse) -> (p: StatusPacket)
    ensures
        p matches StatusPacket::SlpResponse(sr) && sr.json_response@ == status_json_chars(r),
{
    StatusPacket::SlpResponse(SlpResponse { json_response: status_json(r) })
}

/// The reply to a ping: the payload, echoed.
pub fn handle_slp_ping(ping: &Ping) -> (p: StatusPacket)
    ensures
        p matches StatusPacket::Pong(q) && q.payload == ping.payload,
{
    StatusPacket::Pong(Pong { payload: ping.payload })
}

} // verus!
