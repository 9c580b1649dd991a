//! The lines that report progress, and the test for package archives.
//!
//! In the plain form a line is the overall percentage alone, such as
//! `37%`, which is what a host that parses the output expects. The
//! verbose form names the file or the package as well.

use vstd::prelude::*;
use vstd::string::StringExecFns;

verus! {

/// The character for the decimal digit `d`.
pub open spec fn digit_char(d: nat) -> char {
    if d == 0 {
        '0'
    } else if d == 1 {
        '1'
    } else if d == 2 {
        '2'
    } else if d == 3 {
        '3'
    } else if d == 4 {
        '4'
    } else if d == 5 {
        '5'
    } else if d == 6 {
        '6'
    } else if d == 7 {
        '7'
    } else if d == 8 {
        '8'
    } else {
        '9'
    }
}

/// `n` in decimal, without leading zeros.
pub open spec fn decimal(n: nat) -> Seq<char>
    decreases n,
{
    if n < 10 {
        seq![digit_char(n)]
    } else {
        decimal(n / 10).push(digit_char(n % 10))
    }
}

/// The name ending of a package archive.
pub open spec fn archive_suffix() -> Seq<char> {
    seq!['.', 't', 'a', 'r', '.', 'z', 's', 't']
}

/// Whether `filename` names a package archive: whether it ends in
/// `.tar.zst`.
pub open spec fn names_package_archive(filename: Seq<char>) -> bool {
    filename.len() >= 8 && filename.subrange(filename.len() - 8, filename.len() as int)
        == archive_suffix()
}

/// The plain line: the overall percentage and a percent sign.
pub open spec fn plain_line(overall: nat) -> Seq<char> {
    decimal(overall) + seq!['%']
}

/// The verbose line for a download event.
pub open spec fn download_line(filename: Seq<char>, overall: nat) -> Seq<char> {
    "Downloading "@ + filename + ": "@ + decimal(overall) + "%"@
}

/// The verbose line for an install event.
pub open spec fn install_line(package_name: Seq<char>, percent: nat, overall: nat) -> Seq<char> {
    "Installing "@ + package_name + ": "@ + decimal(percent) + "%, Total Progress: "@ + decimal(
        overall,
    ) + "%"@
}

fn digit_str(d: usize) -> (r: &'static str)
    requires
        d < 10,
    ensures
        r@ == seq![digit_char(d as nat)],
{
    proof {
        reveal_strlit("0");
        reveal_strlit("1");
        reveal_strlit("2");
        reveal_strlit("3");
        reveal_strlit("4");
        reveal_strlit("5");
        reveal_strlit("6");
        reveal_strlit("7");
        reveal_strlit("8");
        reveal_strlit("9");
    }
    let r: &'static str = if d == 0 {
        "0"
    } else if d == 1 {
        "1"
    } else if d == 2 {
        "2"
    } else if d == 3 {
        "3"
    } else if d == 4 {
        "4"
    } else if d == 5 {
        "5"
    } else if d == 6 {
        "6"
    } else if d == 7 {
        "7"
    } else if d == 8 {
        "8"
    } else {
        "9"
    };
    assert(r@ =~= seq![digit_char(d as nat)]);
    r
}

/// Appends `n` in decimal to `line`.
pub fn push_decimal(line: &mut String, n: usize)
    ensures
        final(line)@ == old(line)@ + decimal(n as nat),
    decreases n,
{
    if n >= 10 {
        push_decimal(line, n / 10);
    }
    line.append(digit_str(n % 10));
    assert(line@ =~= old(line)@ + decimal(n as nat));
}

/// Whether `filename` names a package archive.
pub fn is_package_archive(filename: &str) -> (r: bool)
    ensures
        r == names_package_archive(filename@),
{
    let len: usize = filename.unicode_len();
    if len < 8 {
        return false;
    }
    let start: usize = len - 8;
    let r: bool = filename.get_char(start) == '.' && filename.get_char(start + 1) == 't'
        && filename.get_char(start + 2) == 'a' && filename.get_char(start + 3) == 'r'
        && filename.get_char(start + 4) == '.' && filename.get_char(start + 5) == 'z'
        && filename.get_char(start + 6) == 's' && filename.get_char(start + 7) == 't';
    proof {
        let tail = filename@.subrange(start as int, len as int);
        assert(tail.len() == 8);
        assert(forall|i: int| 0 <= i < 8 ==> tail[i] == filename@[start + i]);
        if r {
            assert(tail =~= archive_suffix());
        } else {
            assert(tail[0] == filename@[start + 0]);
            assert(tail[1] == filename@[start + 1]);
            assert(tail[2] == filename@[start + 2]);
            assert(tail[3] == filename@[start + 3]);
            assert(tail[4] == filename@[start + 4]);
            assert(tail[5] == filename@[start + 5]);
            assert(tail[6] == filename@[start + 6]);
            assert(tail[7] == filename@[start + 7]);
            assert(archive_suffix()[0] == '.');
            assert(archive_suffix()[7] == 't');
        }
    }
    r
}

/// The line that reports the overall percentage after a download event:
/// plain or verbose.
pub fn render_download(plain: bool, filename: &str, overall: usize) -> (line: String)
    ensures
        line@ == if plain {
            plain_line(overall as nat)
        } else {
            download_line(filename@, overall as nat)
        },
{
    let mut line = String::new();
    if plain {
        push_decimal(&mut line, overall);
        proof {
            reveal_strlit("%");
        }
        line.append("%");
        assert(line@ =~= plain_line(overall as nat));
    } else {
        line.append("Downloading ");
        line.append(filename);
        line.append(": ");
        push_decimal(&mut line, overall);
        line.append("%");
        assert(line@ =~= download_line(filename@, overall as nat));
    }
    line
}

/// The line that reports the overall percentage after an install event:
/// plain or verbose.
pub fn render_install(plain: bool, package_name: &str, percent: usize, overall: usize) -> (line:
    String)
    ensures
        line@ == if plain {
            plain_line(overall as nat)
        } else {
            install_line(package_name@, percent as nat, overall as nat)
        },
{
    let mut line = String::new();
    if plain {
        push_decimal(&mut line, overall);
        proof {
            reveal_strlit("%");
        }
        line.append("%");
        assert(line@ =~= plain_line(overall as nat));
    } else {
        line.append("Installing ");
        line.append(package_name);
        line.append(": ");
        push_decimal(&mut line, percent);
        line.append("%, Total Progress: ");
        push_decimal(&mut line, overall);
        line.append("%");
        assert(line@ =~= install_line(package_name@, percent as nat, overall as nat));
    }
    line
}

} // verus!
