//! Log housekeeping rules: rotation policy, rotated file names and the
//! category names under which components log.
//!
//! Writing, appending and shipping of log files belong to the host;
//! only the rules live here.

use vstd::prelude::*;
use vstd::string::StringExecFns;

verus! {

/// The components whose logs are kept apart.
#[derive(Debug, Clone, Copy, PartialEq, Eq, Structural)]
pub enum LogCategory {
    /// The coin-scanning and buying side.
    SnipingCore,
    /// The colony orchestration side.
    AntColony,
    /// Errors from anywhere.
    Error,
}

impl LogCategory {
    /// The fixed name of the category's log target.
    pub fn as_str(&self) -> (r: &'static str)
        ensures
            *self is SnipingCore ==> r@ == "sniping_core"@,
            *self is AntColony ==> r@ == "ant_colony"@,
            *self is Error ==> r@ == "error"@,
    {
        match self {
            LogCategory::SnipingCore => "sniping_core",
            LogCategory::AntColony => "ant_colony",
            LogCategory::Error => "error",
        }
    }
}

/// A component that logs under one of the fixed categories.
pub trait Loggable {
    /// The category this component logs under.
    fn log_category(&self) -> LogCategory;
}

/// When and whither log files rotate.
pub struct LogRotation {
    max_size: u64,
    max_files: u32,
}

/// The decimal digits of a non-negative number, most significant
/// first.
pub open spec fn spec_decimal(n: int) -> Seq<char>
    decreases n,
{
    if n < 10 {
        seq![spec_decimal_digit(n)]
    } else {
        spec_decimal(n / 10) + seq![spec_decimal_digit(n % 10)]
    }
}

/// One decimal digit as a character.
pub open spec fn spec_decimal_digit(d: int) -> char {
    if d == 0 {
        '0'
    } else if d == 1 {
        '1'
    } else if d == 2 {
        '2'
    } else if d == 3 {
        '3'
    } else if d == 4 {
        '4'
    } else if d == 5 {
        '5'
    } else if d == 6 {
        '6'
    } else if d == 7 {
        '7'
    } else if d == 8 {
        '8'
    } else {
        '9'
    }
}

/// Appends the decimal rendering of `n` to `out`.
fn push_decimal(n: u32, out: &mut String)
    ensures
        final(out)@ == old(out)@ + spec_decimal(n as int),
    decreases n,
{
    if n >= 10 {
        push_decimal(n / 10, out);
    }
    let ghost before = out@;
    let d = n % 10;
    match d {
        0 => {
            out.append("0");
            proof {
                reveal_strlit("0");
                assert("0"@ =~= seq![spec_decimal_digit(d as int)]);
            }
        },
        1 => {
            out.append("1");
            proof {
                reveal_strlit("1");
                assert("1"@ =~= seq![spec_decimal_digit(d as int)]);
            }
        },
        2 => {
            out.append("2");
            proof {
                reveal_strlit("2");
                assert("2"@ =~= seq![spec_decimal_digit(d as int)]);
            }
        },
        3 => {
            out.append("3");
            proof {
                reveal_strlit("3");
                assert("3"@ =~= seq![spec_decimal_digit(d as int)]);
            }
        },
        4 => {
            out.append("4");
            proof {
                reveal_strlit("4");
                assert("4"@ =~= seq![spec_decimal_digit(d as int)]);
            }
        },
        5 => {
            out.append("5");
            proof {
                reveal_strlit("5");
                assert("5"@ =~= seq![spec_decimal_digit(d as int)]);
            }
        },
        6 => {
            out.append("6");
            proof {
                reveal_strlit("6");
                assert("6"@ =~= seq![spec_decimal_digit(d as int)]);
            }
        },
        7 => {
            out.append("7");
            proof {
                reveal_strlit("7");
                assert("7"@ =~= seq![spec_decimal_digit(d as int)]);
            }
        },
        8 => {
            out.append("8");
            proof {
                reveal_strlit("8");
                assert("8"@ =~= seq![spec_decimal_digit(d as int)]);
            }
        },
        _ => {
            out.append("9");
            proof {
                reveal_strlit("9");
                assert(d == 9);
                assert("9"@ =~= seq![spec_decimal_digit(d as int)]);
            }
        },
    }
    proof {
        if n < 10 {
            assert(out@ =~= old(out)@ + spec_decimal(n as int));
        } else {
            assert(before == old(out)@ + spec_decimal(n as int / 10));
            assert(out@ =~= old(out)@ + spec_decimal(n as int));
        }
    }
}

impl LogRotation {
    /// A rotation policy: files rotate at `max_size` bytes, and at
    /// most `max_files` rotated files are kept.
    pub fn new(max_size: u64, max_files: u32) -> (r: LogRotation)
        ensures
            r.spec_max_size() == max_size,
            r.spec_max_files() == max_files,
    {
        LogRotation { max_size, max_files }
    }

    /// The size at which a file rotates.
    pub closed spec fn spec_max_size(self) -> u64 {
        self.max_size
    }

    /// How many rotated files are kept.
    pub closed spec fn spec_max_files(self) -> u32 {
        self.max_files
    }

    /// Whether a file of the given size is due for rotation.
    pub fn should_rotate(&self, file_size: u64) -> (r: bool)
        ensures
            r == (file_size >= self.spec_max_size()),
    {
        file_size >= self.max_size
    }

    /// The name of the `index`-th rotated file: the stem, the index
    /// and the extension, joined by dots.
    pub fn get_rotated_filename(&self, stem: &str, extension: &str, index: u32) -> (r: String)
        ensures
            r@ == stem@ + seq!['.'] + spec_decimal(index as int) + seq!['.'] + extension@,
    {
        let mut r = String::new();
        r.append(stem);
        r.append(".");
        push_decimal(index, &mut r);
        r.append(".");
        r.append(extension);
        proof {
            reveal_strlit(".");
            assert("."@ =~= seq!['.']);
            assert(r@ =~= stem@ + seq!['.'] + spec_decimal(index as int) + seq![
                '.'
            ] + extension@);
        }
        r
    }
}

} // verus!
