//! The addresses that users enter and share.

use crate::text::{
    after_prefix, characters, contains, join, trimmed, without_prefixes, without_slashes,
};
#[allow(unused_imports)]
use crate::text::{
    blank, blanks_are_trimmed_away, digit, holds, parts_stand_between, prefixes_are_taken_off,
    slashes,
    slashes_are_taken_off, stands_at, starts, strip_all, trim, trim_slashes,
    trimming_takes_white_space, white,
};
use vstd::prelude::*;
use vstd::string::*;

verus! {

/// The port that a master and a relay listen on.
pub const PORT: u16 = 8927;

/// The address ends in a colon and a number.
pub open spec fn has_port(address: Seq<char>) -> bool {
    exists|i: int| #[trigger] port_after(address, i)
}

/// Behind the colon at the place `i` stand digits, at least one, and nothing else.
pub open spec fn port_after(address: Seq<char>, i: int) -> bool {
    &&& 0 <= i < address.len() - 1
    &&& address[i] == ':'
    &&& forall|j: int| i < j < address.len() ==> digit(#[trigger] address[j])
}

/// What is left of an entry without the white space around it and the slashes behind.
pub open spec fn bare(input: Seq<char>) -> Seq<char> {
    trim_slashes(trim(input))
}

/// The entry asks for a relay behind a secure proxy.
pub open spec fn secure(input: Seq<char>) -> bool {
    starts(bare(input), "https://"@)
}

/// The entry without its scheme.
pub open spec fn after_scheme(input: Seq<char>) -> Seq<char> {
    if secure(input) {
        bare(input).skip("https://"@.len() as int)
    } else if starts(bare(input), "http://"@) {
        bare(input).skip("http://"@.len() as int)
    } else {
        bare(input)
    }
}

/// The host, with the port where one has to be named.
pub open spec fn host_port(input: Seq<char>) -> Seq<char> {
    if has_port(after_scheme(input)) || secure(input) {
        after_scheme(input)
    } else {
        after_scheme(input) + ":8927"@
    }
}

/// The address to show and share.
pub open spec fn public_url(input: Seq<char>) -> Seq<char> {
    (if secure(input) { "https://"@ } else { "http://"@ }) + host_port(input)
}

/// The address of the uplink.
pub open spec fn uplink_url(input: Seq<char>) -> Seq<char> {
    (if secure(input) { "wss://"@ } else { "ws://"@ }) + host_port(input) + "/source"@
}

/// Whether a character is a digit.
fn is_digit(c: char) -> (r: bool)
    ensures
        r == digit(c),
{
    '0' <= c && c <= '9'
}

/// Whether an address ends in a colon and a number.
fn names_port(address: &str) -> (r: bool)
    ensures
        r == has_port(address@),
{
    let chars = characters(address);
    let size = chars.len();
    let mut i: usize = size;
    while 0 < i && is_digit(chars[i - 1])
        invariant
            chars@ == address@,
            size == chars.len(),
            i <= size,
            forall|j: int| i <= j < size ==> digit(#[trigger] address@[j]),
        decreases i,
    {
        i = i - 1;
    }
    if 0 < i && i < size && chars[i - 1] == ':' {
        assert(port_after(address@, i - 1));
        true
    } else {
        proof {
            if has_port(address@) {
                let k = choose|k: int| port_after(address@, k);
                if k < i - 1 {
                    assert(digit(address@[i - 1]));
                } else if k >= i {
                    assert(digit(address@[k]));
                }
            }
        }
        false
    }
}

/// Normalizes a user-entered relay address into the public URL to share and the
/// websocket URL of the uplink.
///
/// Accepts a bare host, "host:port", "http://host[:port]" and
/// "https://host[:port]". A host with no port gets ":8927" appended, unless it goes
/// through a reverse proxy ("https://").
pub fn normalize_relay_addr(input: &str) -> (r: (String, String))
    ensures
        r.0@ == public_url(input@),
        r.1@ == uplink_url(input@),
{
    let entry = without_slashes(trimmed(input));
    let (over_tls, rest) = match after_prefix(entry, "https://") {
        Some(rest) => (true, rest),
        None => match after_prefix(entry, "http://") {
            Some(rest) => (false, rest),
            None => (false, entry),
        },
    };
    let host = if names_port(rest) || over_tls {
        rest.to_owned()
    } else {
        join(rest, ":8927")
    };
    let public = join(if over_tls { "https://" } else { "http://" }, host.as_str());
    let socket = join(if over_tls { "wss://" } else { "ws://" }, host.as_str());
    (public, join(socket.as_str(), "/source"))
}

/// The websocket URL that a speaker dials for `address`: a host, with or without a
/// port.
pub open spec fn speaker_url(address: Seq<char>) -> Seq<char> {
    "ws://"@ + (if holds(address, ":"@) { address } else { address + ":8927"@ }) + "/ws"@
}

/// The websocket URL that a speaker dials.
pub fn client_url(addr: &str) -> (r: String)
    ensures
        r@ == speaker_url(addr@),
{
    let target = if contains(addr, ":") { addr.to_owned() } else { join(addr, ":8927") };
    let socket = join("ws://", target.as_str());
    join(socket.as_str(), "/ws")
}

/// The URL of a master on the local network, for speakers to join.
pub fn join_url(ip: &str) -> (r: String)
    ensures
        r@ == "http://"@ + ip@ + ":8927"@,
{
    let start = join("http://", ip);
    join(start.as_str(), ":8927")
}

/// A shared address without its scheme.
pub open spec fn without_scheme(url: Seq<char>) -> Seq<char> {
    strip_all(strip_all(url, "https://"@), "http://"@)
}

/// Takes the scheme off a shared address.
pub fn strip_scheme(url: &str) -> (r: String)
    ensures
        r@ == without_scheme(url@),
{
    without_prefixes(without_prefixes(url, "https://"), "http://").to_owned()
}

/// Trimming leaves a text alone that has no white space at its ends.
proof fn trim_leaves(s: Seq<char>)
    requires
        s.len() > 0,
        !white(s.first()),
        !white(s.last()),
    ensures
        trim(s) == s,
{
}

/// What is left has no slash at its end.
proof fn no_slash_is_left(s: Seq<char>)
    ensures
        trim_slashes(s).len() > 0 ==> trim_slashes(s).last() != '/',
    decreases s.len(),
{
    if s.len() > 0 && s.last() == '/' {
        no_slash_is_left(s.drop_last());
    }
}

/// The entry asks for a secure relay and has white space between the host and its slashes.
pub open spec fn ragged(input: Seq<char>) -> bool {
    secure(input) && white(bare(input).last())
}

/// The letters of the schemes.
proof fn scheme_letters()
    ensures
        "http://"@ == seq!['h', 't', 't', 'p', ':', '/', '/'],
        "https://"@ == seq!['h', 't', 't', 'p', 's', ':', '/', '/'],
        ":8927"@ == seq![':', '8', '9', '2', '7'],
{
    reveal_strlit("http://");
    reveal_strlit("https://");
    reveal_strlit(":8927");
    assert("http://"@ =~= seq!['h', 't', 't', 'p', ':', '/', '/']);
    assert("https://"@ =~= seq!['h', 't', 't', 'p', 's', ':', '/', '/']);
    assert(":8927"@ =~= seq![':', '8', '9', '2', '7']);
}

/// An insecure address names its port.
proof fn insecure_names_port(input: Seq<char>)
    requires
        !secure(input),
    ensures
        has_port(host_port(input)),
{
    scheme_letters();
    let rest = after_scheme(input);
    if !has_port(rest) {
        assert(port_after(rest + ":8927"@, rest.len() as int));
    }
}

/// The address that is shared leads back to itself: who enters it reaches the same relay by
/// the same address.
pub proof fn shared_address_is_stable(input: Seq<char>)
    requires
        !ragged(input),
    ensures
        public_url(public_url(input)) == public_url(input),
        uplink_url(public_url(input)) == uplink_url(input),
{
    scheme_letters();
    let public = public_url(input);
    let host = host_port(input);
    no_slash_is_left(trim(input));
    if secure(input) {
        let entry = bare(input);
        assert(entry.take(8)[7] == '/');
        assert(entry.len() > 8);
        assert(public =~= entry);
        assert(entry[0] == entry.take(8)[0]);
        trim_leaves(public);
        assert(trim_slashes(public) == public);
        assert(bare(public) == public);
    } else {
        insecure_names_port(input);
        let k = choose|k: int| port_after(host, k);
        assert(digit(host[host.len() - 1]));
        assert(public.last() == host.last());
        assert(public[0] == 'h');
        trim_leaves(public);
        assert(trim_slashes(public) == public);
        assert(bare(public) == public);
        assert(!starts(public, "https://"@)) by {
            assert(public[4] == ':');
            if starts(public, "https://"@) {
                assert(public.take(8)[4] == 's');
            }
        }
        assert(public.take(7) =~= "http://"@);
        assert(starts(public, "http://"@));
        assert(public.skip(7) =~= host);
        assert(after_scheme(public) == host);
    }
}

/// The master's own playback dials the relay that its uplink goes to, provided that the relay
/// is not a secure one and its name does not itself start with a scheme.
pub proof fn own_playback_joins_the_relay(input: Seq<char>)
    requires
        !secure(input),
        !starts(host_port(input), "http://"@),
    ensures
        speaker_url(without_scheme(public_url(input))) == "ws://"@ + host_port(input) + "/ws"@,
{
    scheme_letters();
    reveal_strlit(":");
    let public = public_url(input);
    let host = host_port(input);
    assert(!starts(public, "https://"@)) by {
        assert(public[4] == ':');
        if starts(public, "https://"@) {
            assert(public.take(8)[4] == 's');
        }
    }
    assert(public.take(7) =~= "http://"@);
    assert(public.skip(7) =~= host);
    assert(strip_all(public, "http://"@) == strip_all(host, "http://"@));
    assert(strip_all(host, "http://"@) == host);
    insecure_names_port(input);
    let k = choose|k: int| port_after(host, k);
    assert(host.subrange(k, k + 1) =~= ":"@);
    assert(stands_at(host, ":"@, k));
}

/// An address names its port exactly if it ends in a colon and at least one digit.
pub proof fn ports_stand_behind_a_colon(address: Seq<char>)
    ensures
        has_port(address) <==> exists|host: Seq<char>, port: Seq<char>|
            address == #[trigger] ((host + seq![':']) + port) && port.len() > 0 && digits(port),
{
    if has_port(address) {
        let i = choose|i: int| port_after(address, i);
        let host = address.take(i);
        let port = address.skip(i + 1);
        assert(address =~= (host + seq![':']) + port);
        assert(digits(port)) by {
            assert forall|j: int| 0 <= j < port.len() implies digit(#[trigger] port[j]) by {
                assert(port[j] == address[i + 1 + j]);
            }
        }
    }
    if exists|host: Seq<char>, port: Seq<char>|
        address == #[trigger] ((host + seq![':']) + port) && port.len() > 0 && digits(port) {
        let (host, port) = choose|host: Seq<char>, port: Seq<char>|
            address == #[trigger] ((host + seq![':']) + port) && port.len() > 0 && digits(port);
        let i = host.len() as int;
        assert(port_after(address, i)) by {
            assert forall|j: int| i < j < address.len() implies digit(#[trigger] address[j]) by {
                assert(address[j] == port[j - i - 1]);
            }
        }
    }
}

/// All characters are digits.
pub open spec fn digits(s: Seq<char>) -> bool {
    forall|i: int| 0 <= i < s.len() ==> digit(#[trigger] s[i])
}

/// What is left of an entry once the white space around it and the slashes `tail` behind it are
/// gone.
pub open spec fn stripped(core: Seq<char>, tail: Seq<char>) -> bool {
    &&& core.len() > 0
    &&& core.last() != '/'
    &&& tail.len() > 0 || !white(core.last())
}

/// What a user enters around an address does not matter: white space on both sides, and slashes
/// behind it.
proof fn surroundings_do_not_matter(
    before: Seq<char>,
    core: Seq<char>,
    tail: Seq<char>,
    after: Seq<char>,
)
    requires
        blank(before),
        slashes(tail),
        blank(after),
        stripped(core, tail),
        !white(core.first()),
    ensures
        bare(before + (core + tail) + after) == core,
{
    let entry = core + tail;
    assert(entry.first() == core.first());
    if tail.len() > 0 {
        assert(entry.last() == tail[tail.len() - 1]);
    } else {
        assert(entry =~= core);
    }
    trimming_takes_white_space(before, entry, after);
    slashes_are_taken_off(core, tail);
}

/// A relay that is entered by its host, with or without "http://", is reached there: by the port
/// that is named, or by the default one where none is. White space around the entry and slashes
/// behind it do not matter.
pub proof fn hosts_are_reached(
    before: Seq<char>,
    host: Seq<char>,
    tail: Seq<char>,
    after: Seq<char>,
)
    requires
        blank(before),
        slashes(tail),
        blank(after),
        stripped(host, tail),
    ensures
        ({
            let target = if has_port(host) {
                host
            } else {
                host + ":8927"@
            };
            let plain = before + (host + tail) + after;
            let spelled = before + (("http://"@ + host) + tail) + after;
            &&& !white(host.first()) && !starts(host, "http://"@) && !starts(host, "https://"@)
                ==> {
                &&& public_url(plain) == "http://"@ + target
                &&& uplink_url(plain) == "ws://"@ + target + "/source"@
            }
            &&& public_url(spelled) == "http://"@ + target
            &&& uplink_url(spelled) == "ws://"@ + target + "/source"@
        }),
{
    scheme_letters();
    if !white(host.first()) {
        surroundings_do_not_matter(before, host, tail, after);
    }
    let core = "http://"@ + host;
    assert(core.first() == 'h');
    assert(core.last() == host.last());
    surroundings_do_not_matter(before, core, tail, after);
    assert(!starts(core, "https://"@)) by {
        if starts(core, "https://"@) {
            assert(core.take(8)[4] == 's');
            assert(core[4] == ':');
        }
    }
    assert(core.take(7) =~= "http://"@);
    assert(core.skip(7) =~= host);
}

/// A relay that is entered by "https://" is reached behind its proxy: the address is left as it
/// is, and no port is added.
pub proof fn proxies_are_reached(
    before: Seq<char>,
    host: Seq<char>,
    tail: Seq<char>,
    after: Seq<char>,
)
    requires
        blank(before),
        slashes(tail),
        blank(after),
        stripped(host, tail),
    ensures
        ({
            let entry = before + (("https://"@ + host) + tail) + after;
            &&& public_url(entry) == "https://"@ + host
            &&& uplink_url(entry) == "wss://"@ + host + "/source"@
        }),
{
    scheme_letters();
    let core = "https://"@ + host;
    assert(core.first() == 'h');
    assert(core.last() == host.last());
    surroundings_do_not_matter(before, core, tail, after);
    assert(core.take(8) =~= "https://"@);
    assert(core.skip(8) =~= host);
}

/// An entry of white space and slashes names no host; the default port is all that is left.
pub proof fn empty_entries_have_no_host(before: Seq<char>, tail: Seq<char>, after: Seq<char>)
    requires
        blank(before),
        slashes(tail),
        blank(after),
    ensures
        public_url(before + tail + after) == "http://"@ + ":8927"@,
        uplink_url(before + tail + after) == "ws://"@ + ":8927"@ + "/source"@,
{
    scheme_letters();
    let entry = before + tail + after;
    let nothing = Seq::<char>::empty();
    if tail.len() > 0 {
        assert(tail.first() == tail[0] && tail.last() == tail[tail.len() - 1]);
        trimming_takes_white_space(before, tail, after);
        assert(nothing + tail =~= tail);
        slashes_are_taken_off(nothing, tail);
    } else {
        assert(blank(entry)) by {
            assert forall|i: int| 0 <= i < entry.len() implies white(#[trigger] entry[i]) by {
                if i < before.len() {
                    assert(entry[i] == before[i]);
                } else {
                    assert(entry[i] == after[i - before.len()]);
                }
            }
        }
        blanks_are_trimmed_away(entry);
    }
    assert(bare(entry) == nothing);
    assert(nothing + ":8927"@ =~= ":8927"@);
    assert(!has_port(nothing)) by {
        if has_port(nothing) {
            let i = choose|i: int| port_after(nothing, i);
        }
    }
}

/// A speaker dials the host it is given, by the default port unless the address has a colon.
pub proof fn speakers_dial_the_host(host: Seq<char>, port: Seq<char>)
    ensures
        (forall|i: int| 0 <= i < host.len() ==> #[trigger] host[i] != ':') ==> speaker_url(host)
            == "ws://"@ + host + ":8927/ws"@,
        speaker_url((host + ":"@) + port) == "ws://"@ + ((host + ":"@) + port) + "/ws"@,
{
    reveal_strlit(":");
    reveal_strlit(":8927");
    reveal_strlit("/ws");
    reveal_strlit(":8927/ws");
    parts_stand_between(host, ":"@);
    if forall|i: int| 0 <= i < host.len() ==> #[trigger] host[i] != ':' {
        if holds(host, ":"@) {
            let i = choose|i: int| stands_at(host, ":"@, i);
            assert(host.subrange(i, i + 1)[0] == ":"@[0]);
            assert(host[i] == ':');
        }
        assert("ws://"@ + (host + ":8927"@) + "/ws"@ =~= "ws://"@ + host + ":8927/ws"@);
    }
    parts_stand_between((host + ":"@) + port, ":"@);
}

/// A shared address without its scheme is what stands behind it.
pub proof fn schemes_come_off(host: Seq<char>)
    requires
        !starts(host, "http://"@),
        !starts(host, "https://"@),
    ensures
        without_scheme("http://"@ + host) == host,
        without_scheme("https://"@ + host) == host,
        without_scheme(host) == host,
{
    scheme_letters();
    prefixes_are_taken_off(host, "http://"@);
    prefixes_are_taken_off(host, "https://"@);
    let plain = "http://"@ + host;
    assert(!starts(plain, "https://"@)) by {
        if starts(plain, "https://"@) {
            assert(plain.take(8)[4] == 's');
            assert(plain[4] == ':');
        }
    }
    prefixes_are_taken_off(plain, "https://"@);
}

/// However often a scheme stands in front of a shared address, it comes off.
pub proof fn repeated_schemes_come_off(url: Seq<char>)
    ensures
        without_scheme("https://"@ + url) == without_scheme(url),
        !starts(url, "https://"@) && !starts("http://"@ + url, "https://"@) ==> without_scheme(
            "http://"@ + url,
        ) == without_scheme(url),
        !starts(without_scheme(url), "http://"@),
{
    scheme_letters();
    prefixes_are_taken_off(url, "https://"@);
    prefixes_are_taken_off(url, "http://"@);
    prefixes_are_taken_off("http://"@ + url, "https://"@);
    prefixes_are_taken_off(strip_all(url, "https://"@), "http://"@);
}

} // verus!
