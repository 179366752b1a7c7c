//! Freeing a port held by another process: the commands that list and end the
//! processes bound to a port, and reading their process ids.

use vstd::prelude::*;
use vstd::string::*;
use crate::text::{
    decimal, decimal_string, ends_with_str, has_suffix, join2, join3, last_word, last_word_str, lines,
    parse_u32, parse_u32_str, push_text, second_word, second_word_str, split_lines, trim, trim_str,
    views,
};

verus! {

/// The platform whose native commands are used.
#[derive(Clone, Copy, Debug, PartialEq, Eq, Structural)]
pub enum Platform {
    /// `lsof` and `kill`.
    Unix,
    /// `netstat` and `taskkill`.
    Windows,
}

/// Why freeing a port failed.
#[derive(Clone, Copy, Debug, PartialEq, Eq, Structural)]
pub enum ProbeError {
    /// A native command could not be run.
    PlatformCommandFailed,
}

/// The process ids in `lsof -t` output lines: each line that, trimmed, is a number.
pub open spec fn lsof_pids(ls: Seq<Seq<char>>) -> Seq<u32>
    decreases ls.len(),
{
    if ls.len() == 0 {
        seq![]
    } else {
        let rest = lsof_pids(ls.drop_last());
        match parse_u32(trim(ls.last())) {
            Some(p) => rest.push(p),
            None => rest,
        }
    }
}

/// `:` and the port number: how a local address on `port` ends.
pub open spec fn port_suffix(port: u16) -> Seq<char> {
    ":"@ + decimal(port as nat)
}

/// The process ids in `netstat -ano` output lines for `port`: the last word of
/// each line whose local address (its second word) is on `port`, where that
/// last word is a number. Lines of other ports, and lines where `port` is
/// only the remote end, are left out.
pub open spec fn netstat_pids(ls: Seq<Seq<char>>, port: u16) -> Seq<u32>
    decreases ls.len(),
{
    if ls.len() == 0 {
        seq![]
    } else {
        let rest = netstat_pids(ls.drop_last(), port);
        if has_suffix(second_word(ls.last()), port_suffix(port)) {
            match parse_u32(last_word(ls.last())) {
                Some(p) => rest.push(p),
                None => rest,
            }
        } else {
            rest
        }
    }
}

/// The processes to end to free `port`, in order, given the output of the
/// listing command: none when the output is blank, i.e. when nothing is bound
/// to the port.
pub open spec fn kill_list(platform: Platform, port: u16, listing: Seq<char>) -> Seq<u32> {
    if trim(listing).len() == 0 {
        seq![]
    } else {
        match platform {
            Platform::Unix => lsof_pids(lines(listing)),
            Platform::Windows => netstat_pids(lines(listing), port),
        }
    }
}

/// The processes to end to free a port, read from the listing command's output.
pub fn pids_to_kill(platform: Platform, port: u16, listing: &str) -> (r: Vec<u32>)
    ensures
        r@ == kill_list(platform, port, listing@),
{
    let suffix = join2(":", decimal_string(port as u64).as_str());
    let t = trim_str(listing);
    let mut out: Vec<u32> = Vec::new();
    if t.as_str().unicode_len() == 0 {
        assert(out@ =~= seq![]);
        return out;
    }
    let ls = split_lines(listing);
    let ghost lv = views(ls@);
    let mut i: usize = 0;
    while i < ls.len()
        invariant
            lv == views(ls@),
            lv == lines(listing@),
            i <= ls@.len(),
            platform == Platform::Unix ==> out@ == lsof_pids(lv.subrange(0, i as int)),
            platform == Platform::Windows ==> out@ == netstat_pids(lv.subrange(0, i as int), port),
            suffix@ == port_suffix(port),
        decreases ls@.len() - i,
    {
        let line = ls[i].as_str();
        assert(lv.subrange(0, i + 1).drop_last() =~= lv.subrange(0, i as int));
        assert(lv.subrange(0, i + 1).last() == line@);
        let keep = match platform {
            Platform::Unix => true,
            Platform::Windows => ends_with_str(second_word_str(line).as_str(), suffix.as_str()),
        };
        if keep {
            let word = match platform {
                Platform::Unix => trim_str(line),
                Platform::Windows => last_word_str(line),
            };
            match parse_u32_str(word.as_str()) {
                Some(p) => out.push(p),
                None => {},
            }
        }
        i += 1;
    }
    assert(lv.subrange(0, i as int) =~= lv);
    out
}

/// Freeing a port that nothing holds ends no process, however many times it
/// is done: blank listing output gives an empty kill list, and the port stays
/// as free as it was.
pub proof fn lemma_free_port_idempotent(platform: Platform, port: u16, listing: Seq<char>)
    requires
        trim(listing).len() == 0,
    ensures
        kill_list(platform, port, listing) == Seq::<u32>::empty(),
{
}

/// The shell command line that lists the processes bound to `port`: on Unix
/// only those listening on it; on Windows the candidate lines, which
/// `netstat_pids` narrows to the local address.
pub open spec fn listing_script(platform: Platform, port: u16) -> Seq<char> {
    match platform {
        Platform::Unix => "lsof -t -iTCP:"@ + decimal(port as nat) + " -sTCP:LISTEN"@,
        Platform::Windows => "netstat -ano | findstr :"@ + decimal(port as nat),
    }
}

/// The program and arguments that list the processes bound to `port`.
pub open spec fn listing_command_spec(platform: Platform, port: u16) -> (Seq<char>, Seq<Seq<char>>) {
    match platform {
        Platform::Unix => ("sh"@, seq!["-c"@, listing_script(platform, port)]),
        Platform::Windows => ("cmd"@, seq!["/C"@, listing_script(platform, port)]),
    }
}

/// The program and arguments that list the processes bound to `port`.
pub fn listing_command(platform: Platform, port: u16) -> (r: (String, Vec<String>))
    ensures
        (r.0@, views(r.1@)) == listing_command_spec(platform, port),
{
    let digits = decimal_string(port as u64);
    let mut args: Vec<String> = Vec::new();
    assert(views(args@) =~= seq![]);
    match platform {
        Platform::Unix => {
            push_text(&mut args, "-c");
            let script = join3("lsof -t -iTCP:", digits.as_str(), " -sTCP:LISTEN");
            push_text(&mut args, script.as_str());
            assert(views(args@) =~= listing_command_spec(platform, port).1);
            (String::from_str("sh"), args)
        },
        Platform::Windows => {
            push_text(&mut args, "/C");
            let script = join2("netstat -ano | findstr :", digits.as_str());
            push_text(&mut args, script.as_str());
            assert(views(args@) =~= listing_command_spec(platform, port).1);
            (String::from_str("cmd"), args)
        },
    }
}

/// The program and arguments that forcibly end process `pid`.
pub open spec fn kill_command_spec(platform: Platform, pid: u32) -> (Seq<char>, Seq<Seq<char>>) {
    match platform {
        Platform::Unix => ("kill"@, seq!["-9"@, decimal(pid as nat)]),
        Platform::Windows => ("taskkill"@, seq!["/F"@, "/PID"@, decimal(pid as nat)]),
    }
}

/// The program and arguments that forcibly end process `pid`.
pub fn kill_command(platform: Platform, pid: u32) -> (r: (String, Vec<String>))
    ensures
        (r.0@, views(r.1@)) == kill_command_spec(platform, pid),
{
    let digits = decimal_string(pid as u64);
    let mut args: Vec<String> = Vec::new();
    assert(views(args@) =~= seq![]);
    match platform {
        Platform::Unix => {
            push_text(&mut args, "-9");
            push_text(&mut args, digits.as_str());
            assert(views(args@) =~= kill_command_spec(platform, pid).1);
            (String::from_str("kill"), args)
        },
        Platform::Windows => {
            push_text(&mut args, "/F");
            push_text(&mut args, "/PID");
            push_text(&mut args, digits.as_str());
            assert(views(args@) =~= kill_command_spec(platform, pid).1);
            (String::from_str("taskkill"), args)
        },
    }
}

} // verus!
