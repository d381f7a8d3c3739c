//! Composition of the human-readable report comment.
//!
//! Both sinks open with the remote address; the displayed destination
//! port, the hostname and the free-text message follow in that fixed
//! order, each omitted entirely (separators included) when its
//! configured text is empty. The webhook content additionally embeds
//! the observation time, after the port and before the hostname.

use vstd::prelude::*;
use vstd::string::StringExecFns;
use crate::addr::{spec_ip_text, IpAddress};
use crate::settings::{CommentConfig, CommentConfigView};
use crate::textnum::{spec_dec_digits, u64_text};

verus! {

/// The optional " to port {port}" piece: empty when no display port is
/// configured.
pub open spec fn spec_port_part(display_port: Seq<char>) -> Seq<char> {
    if display_port.len() == 0 {
        Seq::<char>::empty()
    } else {
        " to port "@ + display_port
    }
}

/// The optional " ({hostname})" piece: empty when no hostname is
/// configured.
pub open spec fn spec_host_part(hostname: Seq<char>) -> Seq<char> {
    if hostname.len() == 0 {
        Seq::<char>::empty()
    } else {
        " ("@ + hostname + ")"@
    }
}

/// The optional ": {message}" piece: empty when no message is
/// configured.
pub open spec fn spec_msg_part(message: Seq<char>) -> Seq<char> {
    if message.len() == 0 {
        Seq::<char>::empty()
    } else {
        ": "@ + message
    }
}

/// The embedded rendering of the observation time: a date and a time
/// tag, both carrying the epoch seconds.
pub open spec fn spec_time_part(epoch: u64) -> Seq<char> {
    " <t:"@ + spec_dec_digits(epoch as nat) + ":D><t:"@ + spec_dec_digits(epoch as nat) + ":T>"@
}

/// The comment sent to the abuse database: address, then the optional
/// port, hostname and message pieces.
pub open spec fn spec_abuse_comment(ip_text: Seq<char>, cc: CommentConfigView) -> Seq<char> {
    "Connection attemp from "@ + ip_text + spec_port_part(cc.display_port) + spec_host_part(
        cc.hostname,
    ) + spec_msg_part(cc.message)
}

/// The content sent to the webhook: as the abuse comment, with the
/// observation time embedded after the port piece.
pub open spec fn spec_webhook_content(ip_text: Seq<char>, cc: CommentConfigView, epoch: u64) -> Seq<
    char,
> {
    "Connection attemp from "@ + ip_text + spec_port_part(cc.display_port) + spec_time_part(epoch)
        + spec_host_part(cc.hostname) + spec_msg_part(cc.message)
}

fn append_port_part(s: &mut String, display_port: &String)
    ensures
        final(s)@ == old(s)@ + spec_port_part(display_port@),
{
    if !display_port.as_str().is_empty() {
        s.append(" to port ");
        s.append(display_port.as_str());
    } else {
        proof {
            assert(s@ + Seq::<char>::empty() =~= s@);
        }
    }
}

fn append_host_part(s: &mut String, hostname: &String)
    ensures
        final(s)@ == old(s)@ + spec_host_part(hostname@),
{
    if !hostname.as_str().is_empty() {
        s.append(" (");
        s.append(hostname.as_str());
        s.append(")");
    } else {
        proof {
            assert(s@ + Seq::<char>::empty() =~= s@);
        }
    }
}

fn append_msg_part(s: &mut String, message: &String)
    ensures
        final(s)@ == old(s)@ + spec_msg_part(message@),
{
    if !message.as_str().is_empty() {
        s.append(": ");
        s.append(message.as_str());
    } else {
        proof {
            assert(s@ + Seq::<char>::empty() =~= s@);
        }
    }
}

/// Composes the abuse-database comment for a remote address under a
/// comment template.
pub fn abuse_comment(ip: &IpAddress, cc: &CommentConfig) -> (r: String)
    ensures
        r@ == spec_abuse_comment(spec_ip_text(*ip), cc@),
{
    let mut s = "Connection attemp from ".to_owned();
    let ip_s = ip.text();
    s.append(ip_s.as_str());
    append_port_part(&mut s, &cc.display_port);
    append_host_part(&mut s, &cc.hostname);
    append_msg_part(&mut s, &cc.message);
    s
}

/// Composes the webhook content for a remote address observed at the
/// given epoch second under a comment template.
pub fn webhook_content(ip: &IpAddress, cc: &CommentConfig, epoch: u64) -> (r: String)
    ensures
        r@ == spec_webhook_content(spec_ip_text(*ip), cc@, epoch),
{
    let mut s = "Connection attemp from ".to_owned();
    let ip_s = ip.text();
    s.append(ip_s.as_str());
    append_port_part(&mut s, &cc.display_port);
    s.append(" <t:");
    let t = u64_text(epoch);
    s.append(t.as_str());
    s.append(":D><t:");
    s.append(t.as_str());
    s.append(":T>");
    append_host_part(&mut s, &cc.hostname);
    append_msg_part(&mut s, &cc.message);
    s
}

/// A comma-joined rendering of a sequence of texts, with no trailing or
/// leading separator.
pub open spec fn spec_join_comma(parts: Seq<Seq<char>>) -> Seq<char>
    decreases parts.len(),
{
    if parts.len() == 0 {
        Seq::<char>::empty()
    } else if parts.len() == 1 {
        parts[0]
    } else {
        spec_join_comma(parts.drop_last()) + ","@ + parts.last()
    }
}

fn join_comma_upto(parts: &Vec<String>, n: usize) -> (r: String)
    requires
        n <= parts@.len(),
    ensures
        r@ == spec_join_comma(parts.deep_view().subrange(0, n as int)),
    decreases n,
{
    if n == 0 {
        proof {
            assert(parts.deep_view().subrange(0, 0) =~= Seq::<Seq<char>>::empty());
        }
        String::new()
    } else {
        let mut s = join_comma_upto(parts, n - 1);
        if n - 1 > 0 {
            s.append(",");
        }
        s.append(parts[n - 1].as_str());
        proof {
            let sub = parts.deep_view().subrange(0, n as int);
            assert(sub.drop_last() =~= parts.deep_view().subrange(0, n - 1));
            assert(sub.last() == parts@[n - 1]@);
            if n == 1 {
                assert(Seq::<char>::empty() + parts@[0]@ =~= parts@[0]@);
            }
        }
        s
    }
}

/// Joins the configured category codes with commas, as the abuse
/// database expects them.
pub fn join_comma(parts: &Vec<String>) -> (r: String)
    ensures
        r@ == spec_join_comma(parts.deep_view()),
{
    let n = parts.len();
    let r = join_comma_upto(parts, n);
    proof {
        assert(parts.deep_view().subrange(0, parts.deep_view().len() as int) =~= parts.deep_view());
    }
    r
}

} // verus!
