use vstd::prelude::*;
use crate::bubbles::next_slot;
use crate::tank::draw_at_most;

verus! {

/// Number of tank backdrops.
pub const N_BACKDROPS: usize = 5;

/// Frame rate when none is asked for.
pub const DEFAULT_FPS: u32 = 24;

/// The keys pressed this frame.
#[derive(Clone, Copy, PartialEq, Eq, Debug, Structural)]
pub struct Keys {
    pub space: bool,
    pub b: bool,
    pub r: bool,
    pub e: bool,
    pub q: bool,
    pub escape: bool,
}

/// What the viewer asked for this frame: the backdrop to show, whether to
/// restock the tank, whether to toggle the ebi guise, and whether to quit.
#[derive(Clone, Copy, PartialEq, Eq, Debug, Structural)]
pub struct Commands {
    pub backdrop: usize,
    pub reset: bool,
    pub toggle_ebi: bool,
    pub quit: bool,
}

/// Turns this frame's key presses into commands: Space or B shows the next
/// backdrop (wrapping round), R restocks the tank, E toggles the ebi guise,
/// Q or Escape quits.
pub fn frame_commands(keys: Keys, backdrop: usize, n_backdrops: usize) -> (c: Commands)
    requires
        backdrop < n_backdrops,
    ensures
        c.backdrop == (if keys.space || keys.b {
            (backdrop + 1) % (n_backdrops as int)
        } else {
            backdrop as int
        }),
        c.backdrop < n_backdrops,
        c.reset == keys.r,
        c.toggle_ebi == keys.e,
        c.quit == (keys.q || keys.escape),
{
    let next = if keys.space || keys.b {
        next_slot(backdrop, n_backdrops)
    } else {
        backdrop
    };
    Commands { backdrop: next, reset: keys.r, toggle_ebi: keys.e, quit: keys.q || keys.escape }
}

/// The start-up options: the backdrop asked for, if any, and the frame rate.
#[derive(Clone, Copy, PartialEq, Eq, Debug, Structural)]
pub struct Options {
    pub bg: Option<usize>,
    pub fps: u32,
}

/// Every byte is an ASCII decimal digit.
pub open spec fn all_digits(s: Seq<u8>) -> bool {
    forall|i: int| 0 <= i < s.len() ==> 48 <= #[trigger] s[i] <= 57
}

/// The number the decimal digits `s` spell.
pub open spec fn decimal(s: Seq<u8>) -> nat
    decreases s.len(),
{
    if s.len() == 0 {
        0
    } else {
        decimal(s.drop_last()) * 10 + (s.last() - 48) as nat
    }
}

/// The number a command-line value spells, when it is a non-empty run of
/// decimal digits whose value fits a `u32`.
pub open spec fn number_arg(s: Seq<u8>) -> Option<nat> {
    if s.len() > 0 && all_digits(s) && decimal(s) <= u32::MAX {
        Some(decimal(s))
    } else {
        None
    }
}

/// Reads a command-line value as a decimal number.
pub fn parse_number(s: &Vec<u8>) -> (r: Option<u32>)
    ensures
        r matches Some(v) ==> number_arg(s@) == Some(v as nat),
        r is None ==> number_arg(s@) is None,
{
    if s.len() == 0 {
        return None;
    }
    let mut v: u32 = 0;
    let mut i: usize = 0;
    while i < s.len()
        invariant
            i <= s@.len(),
            all_digits(s@.take(i as int)),
            v as nat == decimal(s@.take(i as int)),
        decreases s@.len() - i,
    {
        let c = s[i];
        assert(s@.take(i as int + 1).drop_last() =~= s@.take(i as int));
        if c < 48 || c > 57 {
            assert(!all_digits(s@)) by {
                assert(s@[i as int] == c);
            }
            return None;
        }
        let d = (c - 48) as u32;
        if v > 429496729 || (v == 429496729 && d > 5) {
            proof {
                lemma_decimal_prefix_grows(s@, i as int + 1);
            }
            return None;
        }
        v = v * 10 + d;
        i += 1;
    }
    assert(s@.take(s@.len() as int) =~= s@);
    Some(v)
}

proof fn lemma_decimal_prefix_grows(s: Seq<u8>, n: int)
    requires
        0 < n <= s.len(),
        all_digits(s.take(n - 1)),
        48 <= s[n - 1] <= 57,
        decimal(s.take(n - 1)) * 10 + (s[n - 1] - 48) > u32::MAX,
    ensures
        all_digits(s) ==> decimal(s) > u32::MAX,
    decreases s.len(),
{
    assert(s.take(n).drop_last() =~= s.take(n - 1));
    if n == s.len() {
        assert(s.take(n) =~= s);
    } else {
        if all_digits(s) {
            let t = s.drop_last();
            assert(t.take(n - 1) =~= s.take(n - 1));
            assert(t[n - 1] == s[n - 1]);
            assert(all_digits(t));
            lemma_decimal_prefix_grows(t, n);
        }
    }
}

/// The flag that picks the backdrop.
pub open spec fn bg_flag() -> Seq<u8> {
    seq![45u8, 45u8, 98u8, 103u8]
}

/// The flag that sets the frame rate.
pub open spec fn fps_flag() -> Seq<u8> {
    seq![45u8, 45u8, 102u8, 112u8, 115u8]
}

/// The options after reading the arguments from position `i` on, starting
/// from `o`: `--bg N` picks backdrop `N` when there is such a backdrop,
/// `--fps N` sets a frame rate of `N` when `N` is positive, each flag takes the
/// argument after it, later flags override earlier ones, and anything else is
/// passed over.
pub open spec fn options_from(args: Seq<Seq<u8>>, i: int, o: Options) -> Options
    decreases args.len() - i,
{
    if i < 0 || i >= args.len() {
        o
    } else if args[i] == bg_flag() && i + 1 < args.len() {
        let next = match number_arg(args[i + 1]) {
            Some(n) => if n < N_BACKDROPS {
                Options { bg: Some(n as usize), fps: o.fps }
            } else {
                o
            },
            None => o,
        };
        options_from(args, i + 2, next)
    } else if args[i] == fps_flag() && i + 1 < args.len() {
        let next = match number_arg(args[i + 1]) {
            Some(n) => if n > 0 {
                Options { bg: o.bg, fps: n as u32 }
            } else {
                o
            },
            None => o,
        };
        options_from(args, i + 2, next)
    } else {
        options_from(args, i + 1, o)
    }
}

/// The options the command-line arguments ask for, with no backdrop chosen and
/// the default frame rate when they ask for nothing.
pub open spec fn options_of(args: Seq<Seq<u8>>) -> Options {
    options_from(args, 0, Options { bg: None, fps: DEFAULT_FPS })
}

fn is_flag(arg: &Vec<u8>, flag: &[u8]) -> (r: bool)
    ensures
        r == (arg@ == flag@),
{
    if arg.len() != flag.len() {
        return false;
    }
    let mut i: usize = 0;
    while i < arg.len()
        invariant
            i <= arg@.len(),
            arg@.len() == flag@.len(),
            forall|k: int| 0 <= k < i ==> arg@[k] == flag@[k],
        decreases arg@.len() - i,
    {
        if arg[i] != flag[i] {
            return false;
        }
        i += 1;
    }
    assert(arg@ =~= flag@);
    true
}

/// Reads the start-up options from the command-line arguments (the program's
/// name left out).
pub fn parse_options(args: &Vec<Vec<u8>>) -> (o: Options)
    ensures
        o == options_of(args@.map_values(|a: Vec<u8>| a@)),
        o.bg matches Some(b) ==> b < N_BACKDROPS,
{
    let ghost view = args@.map_values(|a: Vec<u8>| a@);
    let bg: [u8; 4] = [45, 45, 98, 103];
    let fps: [u8; 5] = [45, 45, 102, 112, 115];
    assert(bg@ =~= bg_flag());
    assert(fps@ =~= fps_flag());
    let mut o = Options { bg: None, fps: DEFAULT_FPS };
    let mut i: usize = 0;
    while i < args.len()
        invariant
            i <= args@.len() + 1,
            view == args@.map_values(|a: Vec<u8>| a@),
            bg@ == bg_flag(),
            fps@ == fps_flag(),
            options_from(view, i as int, o) == options_of(view),
            o.bg matches Some(b) ==> b < N_BACKDROPS,
        decreases args@.len() + 1 - i,
    {
        if i + 1 < args.len() && is_flag(&args[i], &bg) {
            if let Some(n) = parse_number(&args[i + 1]) {
                if (n as usize) < N_BACKDROPS {
                    o = Options { bg: Some(n as usize), fps: o.fps };
                }
            }
            i += 2;
        } else if i + 1 < args.len() && is_flag(&args[i], &fps) {
            if let Some(n) = parse_number(&args[i + 1]) {
                if n > 0 {
                    o = Options { bg: o.bg, fps: n };
                }
            }
            i += 2;
        } else {
            i += 1;
        }
    }
    o
}

/// The backdrop to start with: the one asked for, or a random one.
pub fn starting_backdrop(choice: Option<usize>) -> (b: usize)
    requires
        choice matches Some(c) ==> c < N_BACKDROPS,
    ensures
        b < N_BACKDROPS,
        choice matches Some(c) ==> b == c,
{
    match choice {
        Some(c) => c,
        None => draw_at_most(N_BACKDROPS - 1),
    }
}

proof fn lemma_flag_is_no_number(f: Seq<u8>)
    requires
        f == bg_flag() || f == fps_flag(),
    ensures
        number_arg(f) is None,
{
    assert(f[0] == 45u8);
}

proof fn lemma_appended_flag_from(args: Seq<Seq<u8>>, f: Seq<u8>, n: Seq<u8>, i: int, o: Options)
    requires
        f == bg_flag() || f == fps_flag(),
        0 <= i,
    ensures
        f == fps_flag() ==> options_from(args.push(f).push(n), i, o).bg == options_from(args, i, o).bg,
        f == bg_flag() ==> options_from(args.push(f).push(n), i, o).fps == options_from(args, i, o).fps,
    decreases args.len() + 2 - i,
{
    let ext = args.push(f).push(n);
    lemma_flag_is_no_number(f);
    assert(bg_flag() != fps_flag()) by {
        assert(bg_flag().len() != fps_flag().len());
    }
    let end: int = args.len() as int + 2;
    assert(options_from(ext, end, o) == o);
    if i >= args.len() + 2 {
    } else if i == args.len() + 1 {
        assert(ext[i] == n);
        assert(options_from(ext, i, o) == options_from(ext, end, o));
    } else if i == args.len() {
        assert(ext[i] == f);
        assert(ext[i + 1] == n);
        let next = if f == bg_flag() {
            match number_arg(n) {
                Some(k) => if k < N_BACKDROPS {
                    Options { bg: Some(k as usize), fps: o.fps }
                } else {
                    o
                },
                None => o,
            }
        } else {
            match number_arg(n) {
                Some(k) => if k > 0 {
                    Options { bg: o.bg, fps: k as u32 }
                } else {
                    o
                },
                None => o,
            }
        };
        assert(options_from(ext, end, next) == next);
        assert(options_from(ext, i, o) == next);
    } else {
        assert(ext[i] == args[i]);
        if i + 1 < args.len() {
            assert(ext[i + 1] == args[i + 1]);
        }
        if (args[i] == bg_flag() || args[i] == fps_flag()) && i + 1 == args.len() {
            // the dangling flag takes the appended flag as its value, which is no number
            assert(ext[i + 1] == f);
            assert(ext[i + 2] == n);
            assert(options_from(ext, i + 2, o) == options_from(ext, end, o));
            assert(options_from(ext, i, o) == options_from(ext, i + 2, o));
            assert(options_from(args, i + 1, o) == o);
        } else if (args[i] == bg_flag() || args[i] == fps_flag()) && i + 1 < args.len() {
            let next = if args[i] == bg_flag() {
                match number_arg(args[i + 1]) {
                    Some(k) => if k < N_BACKDROPS {
                        Options { bg: Some(k as usize), fps: o.fps }
                    } else {
                        o
                    },
                    None => o,
                }
            } else {
                match number_arg(args[i + 1]) {
                    Some(k) => if k > 0 {
                        Options { bg: o.bg, fps: k as u32 }
                    } else {
                        o
                    },
                    None => o,
                }
            };
            lemma_appended_flag_from(args, f, n, i + 2, next);
        } else {
            lemma_appended_flag_from(args, f, n, i + 1, o);
        }
    }
}

/// The two options are independent: asking for a frame rate after any
/// arguments never changes which backdrop they chose, and asking for a
/// backdrop never changes the frame rate they chose.
pub proof fn lemma_options_independent(args: Seq<Seq<u8>>, n: Seq<u8>)
    ensures
        options_of(args.push(fps_flag()).push(n)).bg == options_of(args).bg,
        options_of(args.push(bg_flag()).push(n)).fps == options_of(args).fps,
{
    let o = Options { bg: None, fps: DEFAULT_FPS };
    lemma_appended_flag_from(args, fps_flag(), n, 0, o);
    lemma_appended_flag_from(args, bg_flag(), n, 0, o);
}

/// A single digit reads as its value, and a further digit shifts a number one
/// decimal place up and adds to it, as long as the result fits a `u32`.
pub proof fn lemma_number_digits(s: Seq<u8>, d: u8)
    requires
        48 <= d <= 57,
    ensures
        number_arg(seq![d]) == Some((d - 48) as nat),
        number_arg(s) matches Some(v) ==> number_arg(s.push(d)) == (if v * 10 + (d - 48) <= u32::MAX {
            Some((v * 10 + (d - 48)) as nat)
        } else {
            None::<nat>
        }),
        !all_digits(s) ==> number_arg(s.push(d)) is None,
{
    let one = seq![d];
    assert(one.drop_last() =~= Seq::<u8>::empty());
    assert(decimal(Seq::<u8>::empty()) == 0);
    assert(one.last() == d);
    assert(decimal(one) == decimal(one.drop_last()) * 10 + (d - 48) as nat);
    assert(decimal(one) == (d - 48) as nat);
    assert(all_digits(one));
    let t = s.push(d);
    assert(t.drop_last() =~= s);
    if all_digits(s) {
        assert(all_digits(t));
    }
    if !all_digits(s) {
        assert(!all_digits(t)) by {
            let k = choose|k: int| 0 <= k < s.len() && !(48 <= #[trigger] s[k] <= 57);
            assert(t[k] == s[k]);
        }
    }
}

} // verus!
