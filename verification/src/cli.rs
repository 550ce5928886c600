//! Command line of the debug WASM runner.
//!
//! The runner builds an example, a binary or a package for
//! `wasm32-unknown-unknown` with debug information kept, locates the built
//! `.wasm` file and serves it. This module parses its arguments and derives
//! the cargo invocation and the output path.

use vstd::prelude::*;

verus! {

/// Parsed runner arguments.
#[derive(Debug)]
pub struct Args {
    pub example: Option<String>,
    pub bin: Option<String>,
    pub package: Option<String>,
    pub release: bool,
    pub profile: Option<String>,
    pub port: u32,
}

/// Why the arguments were refused.
#[derive(Clone, Copy, Debug, PartialEq, Eq, Structural)]
pub enum ArgsError {
    /// A port value is not a decimal `u32`.
    InvalidPort,
    /// None of `--example`, `--bin` and `--package` was given.
    MissingTarget,
}

/// Mathematical form of the arguments.
pub ghost struct ArgsModel {
    pub example: Option<Seq<char>>,
    pub bin: Option<Seq<char>>,
    pub package: Option<Seq<char>>,
    pub release: bool,
    pub profile: Option<Seq<char>>,
    pub port: u32,
}

/// View of an optional string.
pub open spec fn opt_view(o: Option<String>) -> Option<Seq<char>> {
    match o {
        Some(s) => Some(s@),
        None => None,
    }
}

impl Args {
    /// The arguments as a model.
    pub open spec fn model(&self) -> ArgsModel {
        ArgsModel {
            example: opt_view(self.example),
            bin: opt_view(self.bin),
            package: opt_view(self.package),
            release: self.release,
            profile: opt_view(self.profile),
            port: self.port,
        }
    }
}

/// Arguments before any flag is read: port 8000, nothing else set.
pub open spec fn default_model() -> ArgsModel {
    ArgsModel { example: None, bin: None, package: None, release: false, profile: None, port: 8000 }
}

/// `s` begins with `p`.
pub open spec fn has_prefix(s: Seq<char>, p: Seq<char>) -> bool {
    p.len() <= s.len() && s.subrange(0, p.len() as int) == p
}

/// Value of a decimal digit string.
pub open spec fn decimal(d: Seq<char>) -> int
    decreases d.len(),
{
    if d.len() == 0 {
        0
    } else {
        decimal(d.drop_last()) * 10 + (d.last() as int - '0' as int)
    }
}

/// Every character is an ASCII decimal digit.
pub open spec fn all_digits(d: Seq<char>) -> bool {
    forall|i: int| 0 <= i < d.len() ==> '0' <= #[trigger] d[i] <= '9'
}

/// Digits of an unsigned number: an optional leading `+` is dropped.
pub open spec fn digits_of(s: Seq<char>) -> Seq<char> {
    if s.len() > 0 && s[0] == '+' { s.drop_first() } else { s }
}

/// `s` parsed as a `u32` the way `str::parse::<u32>` does: an optional `+`
/// then at least one decimal digit, with a value that fits.
pub open spec fn parse_u32_spec(s: Seq<char>) -> Option<u32> {
    let d = digits_of(s);
    if d.len() > 0 && all_digits(d) && decimal(d) <= u32::MAX {
        Some(decimal(d) as u32)
    } else {
        None
    }
}

/// The argument after position `i`, if there is one.
pub open spec fn next_value(args: Seq<Seq<char>>, i: int) -> Option<Seq<char>> {
    if i + 1 < args.len() { Some(args[i + 1]) } else { None }
}

/// Effect of a port value on the model.
pub open spec fn with_port(m: ArgsModel, v: Seq<char>) -> Result<ArgsModel, ArgsError> {
    match parse_u32_spec(v) {
        Some(p) => Ok(ArgsModel { port: p, ..m }),
        None => Err(ArgsError::InvalidPort),
    }
}

/// Reads the flag at position `i`: the position of the next flag, and the
/// updated model or the error. A flag that takes a value consumes the next
/// argument (and sets the value to none when there is no next argument);
/// `--port` with no next argument leaves the port unchanged. Unknown
/// arguments are ignored.
pub open spec fn step(args: Seq<Seq<char>>, i: int, m: ArgsModel) -> (int, Result<ArgsModel, ArgsError>) {
    let a = args[i];
    let nv = next_value(args, i);
    if a == "--example"@ {
        (i + 2, Ok(ArgsModel { example: nv, ..m }))
    } else if a == "--bin"@ {
        (i + 2, Ok(ArgsModel { bin: nv, ..m }))
    } else if a == "-p"@ || a == "--package"@ {
        (i + 2, Ok(ArgsModel { package: nv, ..m }))
    } else if a == "--release"@ {
        (i + 1, Ok(ArgsModel { release: true, ..m }))
    } else if a == "--profile"@ {
        (i + 2, Ok(ArgsModel { profile: nv, ..m }))
    } else if a == "--port"@ {
        match nv {
            Some(v) => (i + 2, with_port(m, v)),
            None => (i + 2, Ok(m)),
        }
    } else if has_prefix(a, "--example="@) {
        (i + 1, Ok(ArgsModel { example: Some(a.skip(10)), ..m }))
    } else if has_prefix(a, "--bin="@) {
        (i + 1, Ok(ArgsModel { bin: Some(a.skip(6)), ..m }))
    } else if has_prefix(a, "-p="@) {
        (i + 1, Ok(ArgsModel { package: Some(a.skip(3)), ..m }))
    } else if has_prefix(a, "--package="@) {
        (i + 1, Ok(ArgsModel { package: Some(a.skip(10)), ..m }))
    } else if has_prefix(a, "--profile="@) {
        (i + 1, Ok(ArgsModel { profile: Some(a.skip(10)), ..m }))
    } else if has_prefix(a, "--port="@) {
        (i + 1, with_port(m, a.skip(7)))
    } else {
        (i + 1, Ok(m))
    }
}

/// Reading the arguments from position `i` on, starting from model `m`.
/// Once all are read, at least one of example, binary and package must be set.
pub open spec fn parse_from(args: Seq<Seq<char>>, i: int, m: ArgsModel) -> Result<ArgsModel, ArgsError>
    decreases args.len() - i,
{
    if i >= args.len() || i < 0 {
        if m.example is None && m.bin is None && m.package is None {
            Err(ArgsError::MissingTarget)
        } else {
            Ok(m)
        }
    } else {
        let (j, r) = step(args, i, m);
        match r {
            Err(e) => Err(e),
            Ok(m2) => {
                let k = if j > args.len() { args.len() as int } else { j };
                if k > i {
                    parse_from(args, k, m2)
                } else {
                    Err(ArgsError::MissingTarget)
                }
            },
        }
    }
}

proof fn lemma_parse_shift(a: Seq<Seq<char>>, i: int, b: Seq<Seq<char>>, j: int, m: ArgsModel)
    requires
        0 <= i <= a.len(),
        0 <= j <= b.len(),
        a.skip(i) == b.skip(j),
    ensures
        parse_from(a, i, m) == parse_from(b, j, m),
    decreases a.len() - i,
{
    assert(a.skip(i).len() == a.len() - i);
    assert(b.skip(j).len() == b.len() - j);
    if i < a.len() {
        assert(a[i] == a.skip(i)[0]);
        assert(b[j] == b.skip(j)[0]);
        if i + 1 < a.len() {
            assert(a[i + 1] == a.skip(i)[1]);
            assert(b[j + 1] == b.skip(j)[1]);
        }
        assert(next_value(a, i) == next_value(b, j));
        let (ja, ra) = step(a, i, m);
        let (jb, rb) = step(b, j, m);
        assert(ra == rb);
        assert(ja - i == jb - j);
        if let Ok(m2) = ra {
            let ka = if ja > a.len() { a.len() as int } else { ja };
            let kb = if jb > b.len() { b.len() as int } else { jb };
            assert(a.skip(ka) =~= b.skip(kb)) by {
                assert forall|t: int| 0 <= t < a.skip(ka).len() implies a.skip(ka)[t] == b.skip(kb)[t] by {
                    assert(a.skip(ka)[t] == a.skip(i)[ka - i + t]);
                    assert(b.skip(kb)[t] == b.skip(j)[kb - j + t]);
                }
            }
            lemma_parse_shift(a, ka, b, kb, m2);
        }
    }
}

proof fn lemma_forms_step_alike(flag: Seq<char>, form: Seq<char>, x: Seq<char>, rest: Seq<Seq<char>>, m: ArgsModel)
    requires
        step(seq![flag, x] + rest, 0, m).0 == 2,
        step(seq![form + x] + rest, 0, m).0 == 1,
        step(seq![flag, x] + rest, 0, m).1 == step(seq![form + x] + rest, 0, m).1,
    ensures
        parse_from(seq![flag, x] + rest, 0, m) == parse_from(seq![form + x] + rest, 0, m),
{
    let a = seq![flag, x] + rest;
    let b = seq![form + x] + rest;
    assert(a.skip(2) =~= rest);
    assert(b.skip(1) =~= rest);
    if let Ok(m2) = step(a, 0, m).1 {
        lemma_parse_shift(a, 2, b, 1, m2);
    }
}

/// A flag's value may follow it as the next argument or after `=`: both
/// forms parse alike, whatever arguments follow.
pub proof fn lemma_value_forms_agree(x: Seq<char>, rest: Seq<Seq<char>>, m: ArgsModel)
    ensures
        parse_from(seq!["--example"@, x] + rest, 0, m) == parse_from(seq!["--example="@ + x] + rest, 0, m),
        parse_from(seq!["--bin"@, x] + rest, 0, m) == parse_from(seq!["--bin="@ + x] + rest, 0, m),
        parse_from(seq!["--package"@, x] + rest, 0, m) == parse_from(seq!["--package="@ + x] + rest, 0, m),
        parse_from(seq!["--profile"@, x] + rest, 0, m) == parse_from(seq!["--profile="@ + x] + rest, 0, m),
{
    reveal_strlit("--example");
    reveal_strlit("--example=");
    reveal_strlit("--bin");
    reveal_strlit("--bin=");
    reveal_strlit("-p");
    reveal_strlit("-p=");
    reveal_strlit("--package");
    reveal_strlit("--package=");
    reveal_strlit("--release");
    reveal_strlit("--profile");
    reveal_strlit("--profile=");
    reveal_strlit("--port");
    reveal_strlit("--port=");
    let se = "--example="@ + x;
    let sb = "--bin="@ + x;
    let sp = "--package="@ + x;
    let sf = "--profile="@ + x;
    assert(se.subrange(0, 10) =~= "--example="@ && se.skip(10) =~= x);
    assert(sb.subrange(0, 6) =~= "--bin="@ && sb.skip(6) =~= x);
    assert(sp.subrange(0, 10) =~= "--package="@ && sp.skip(10) =~= x);
    assert(sf.subrange(0, 10) =~= "--profile="@ && sf.skip(10) =~= x);
    assert(se[9] == '=' && sb[5] == '=' && sp[9] == '=' && sf[9] == '=');
    assert(se != "--example"@ && se != "--bin"@ && se != "-p"@ && se != "--package"@ && se != "--release"@
        && se != "--profile"@ && se != "--port"@) by {
        assert(se.len() >= 10);
    }
    assert(sb[2] == 'b' && sb[1] == '-');
    assert(sb != "--example"@ && sb != "--bin"@ && sb != "-p"@ && sb != "--package"@ && sb != "--release"@
        && sb != "--profile"@ && sb != "--port"@) by {
        assert(sb.len() >= 6);
    }
    assert(!has_prefix(sb, "--example="@)) by {
        if has_prefix(sb, "--example="@) {
            assert(sb.subrange(0, 10)[2] == sb[2]);
        }
    }
    assert(sp[2] == 'p' && sp[1] == '-' && sp[3] == 'a');
    assert(sp != "--example"@ && sp != "--bin"@ && sp != "-p"@ && sp != "--package"@ && sp != "--release"@
        && sp != "--profile"@ && sp != "--port"@) by {
        assert(sp.len() >= 10);
    }
    assert(!has_prefix(sp, "--example="@) && !has_prefix(sp, "--bin="@) && !has_prefix(sp, "-p="@)) by {
        if has_prefix(sp, "--example="@) {
            assert(sp.subrange(0, 10)[2] == sp[2]);
        }
        if has_prefix(sp, "--bin="@) {
            assert(sp.subrange(0, 6)[2] == sp[2]);
        }
        if has_prefix(sp, "-p="@) {
            assert(sp.subrange(0, 3)[1] == sp[1]);
        }
    }
    assert(sf[2] == 'p' && sf[1] == '-' && sf[3] == 'r');
    assert(sf != "--example"@ && sf != "--bin"@ && sf != "-p"@ && sf != "--package"@ && sf != "--release"@
        && sf != "--profile"@ && sf != "--port"@) by {
        assert(sf.len() >= 10);
    }
    assert(!has_prefix(sf, "--example="@) && !has_prefix(sf, "--bin="@) && !has_prefix(sf, "-p="@)
        && !has_prefix(sf, "--package="@)) by {
        if has_prefix(sf, "--example="@) {
            assert(sf.subrange(0, 10)[2] == sf[2]);
        }
        if has_prefix(sf, "--bin="@) {
            assert(sf.subrange(0, 6)[2] == sf[2]);
        }
        if has_prefix(sf, "-p="@) {
            assert(sf.subrange(0, 3)[1] == sf[1]);
        }
        if has_prefix(sf, "--package="@) {
            assert(sf.subrange(0, 10)[3] == sf[3]);
        }
    }
    let ae = seq!["--example"@, x] + rest;
    let ab = seq!["--bin"@, x] + rest;
    let ap = seq!["--package"@, x] + rest;
    let af = seq!["--profile"@, x] + rest;
    assert(ae[0] == "--example"@ && ae[1] == x && ab[0] == "--bin"@ && ab[1] == x);
    assert(ap[0] == "--package"@ && ap[1] == x && af[0] == "--profile"@ && af[1] == x);
    assert("--profile"@ != "--example"@ && "--profile"@ != "--package"@ && "--profile"@ != "--release"@) by {
        assert("--profile"@[2] != "--example"@[2]);
        assert("--profile"@[3] != "--package"@[3]);
        assert("--profile"@[2] != "--release"@[2]);
    }
    let be = seq![se] + rest;
    let bb = seq![sb] + rest;
    let bp = seq![sp] + rest;
    let bf = seq![sf] + rest;
    assert(be[0] == se && bb[0] == sb && bp[0] == sp && bf[0] == sf);
    lemma_forms_step_alike("--example"@, "--example="@, x, rest, m);
    lemma_forms_step_alike("--bin"@, "--bin="@, x, rest, m);
    lemma_forms_step_alike("--package"@, "--package="@, x, rest, m);
    lemma_forms_step_alike("--profile"@, "--profile="@, x, rest, m);
}

/// The last occurrence of a flag wins: an earlier value is overridden.
pub proof fn lemma_last_flag_wins(x: Seq<char>, y: Seq<char>, rest: Seq<Seq<char>>, m: ArgsModel)
    ensures
        parse_from(seq!["--bin"@, x, "--bin"@, y] + rest, 0, m) == parse_from(seq!["--bin"@, y] + rest, 0, m),
{
    let a = seq!["--bin"@, x, "--bin"@, y] + rest;
    let b = seq!["--bin"@, y] + rest;
    reveal_strlit("--example");
    reveal_strlit("--bin");
    assert(a[0] == "--bin"@ && a[1] == x && a[2] == "--bin"@ && a[3] == y);
    assert(b[0] == "--bin"@ && b[1] == y);
    let m1 = ArgsModel { bin: Some(x), ..m };
    assert(step(a, 0, m) == (2int, Ok::<ArgsModel, ArgsError>(m1)));
    assert(a.skip(2) =~= b);
    assert(b.skip(0) =~= b);
    lemma_parse_shift(a, 2, b, 0, m1);
    assert(step(b, 0, m1) == (2int, Ok::<ArgsModel, ArgsError>(ArgsModel { bin: Some(y), ..m })));
    assert(step(b, 0, m) == (2int, Ok::<ArgsModel, ArgsError>(ArgsModel { bin: Some(y), ..m })));
}

/// Views of argument strings.
pub open spec fn args_view(args: Seq<String>) -> Seq<Seq<char>> {
    args.map_values(|s: String| s@)
}

/// Whether two strings hold the same characters.
pub fn str_eq(a: &str, b: &str) -> (r: bool)
    ensures
        r == (a@ == b@),
{
    let n = a.unicode_len();
    if n != b.unicode_len() {
        return false;
    }
    let mut i: usize = 0;
    while i < n
        invariant
            0 <= i <= n,
            n == a@.len(),
            n == b@.len(),
            forall|k: int| 0 <= k < i ==> a@[k] == b@[k],
        decreases n - i,
    {
        if a.get_char(i) != b.get_char(i) {
            return false;
        }
        i = i + 1;
    }
    proof {
        assert(a@ =~= b@);
    }
    true
}

/// Whether `a` begins with `p`.
pub fn starts_with(a: &str, p: &str) -> (r: bool)
    ensures
        r == has_prefix(a@, p@),
{
    let n = p.unicode_len();
    if n > a.unicode_len() {
        return false;
    }
    let mut i: usize = 0;
    while i < n
        invariant
            0 <= i <= n,
            n == p@.len(),
            n <= a@.len(),
            forall|k: int| 0 <= k < i ==> a@[k] == p@[k],
        decreases n - i,
    {
        if a.get_char(i) != p.get_char(i) {
            proof {
                assert(a@.subrange(0, n as int)[i as int] != p@[i as int]);
            }
            return false;
        }
        i = i + 1;
    }
    proof {
        assert(a@.subrange(0, n as int) =~= p@);
    }
    true
}

/// The characters of `a` after its first `n`.
fn suffix_after(a: &str, n: usize) -> (r: String)
    requires
        n <= a@.len(),
    ensures
        r@ == a@.skip(n as int),
{
    let len = a.unicode_len();
    a.substring_char(n, len).to_owned()
}

proof fn lemma_decimal_nonneg(d: Seq<char>)
    requires
        all_digits(d),
    ensures
        decimal(d) >= 0,
    decreases d.len(),
{
    if d.len() > 0 {
        assert(all_digits(d.drop_last())) by {
            assert forall|i: int| 0 <= i < d.drop_last().len() implies '0' <= #[trigger] d.drop_last()[i] <= '9' by {
                assert(d.drop_last()[i] == d[i]);
            }
        }
        lemma_decimal_nonneg(d.drop_last());
        assert('0' <= d[d.len() - 1] <= '9');
    }
}

proof fn lemma_decimal_prefix(d: Seq<char>, k: int)
    requires
        all_digits(d),
        0 <= k <= d.len(),
    ensures
        decimal(d.take(k)) <= decimal(d),
    decreases d.len(),
{
    if k == d.len() {
        assert(d.take(k) =~= d);
    } else {
        let e = d.drop_last();
        assert(all_digits(e)) by {
            assert forall|i: int| 0 <= i < e.len() implies '0' <= #[trigger] e[i] <= '9' by {
                assert(e[i] == d[i]);
            }
        }
        lemma_decimal_prefix(e, k);
        assert(e.take(k) =~= d.take(k));
        lemma_decimal_nonneg(e);
        assert('0' <= d[d.len() - 1] <= '9');
    }
}

/// Parses a decimal `u32` as `str::parse::<u32>` does.
pub fn parse_u32(s: &str) -> (r: Option<u32>)
    ensures
        r == parse_u32_spec(s@),
{
    let n = s.unicode_len();
    let start: usize = if n > 0 && s.get_char(0) == '+' { 1 } else { 0 };
    let ghost d = digits_of(s@);
    proof {
        assert(d =~= s@.skip(start as int));
    }
    if start >= n {
        proof {
            assert(d.len() == 0);
        }
        return None;
    }
    let mut acc: u64 = 0;
    let mut i = start;
    while i < n
        invariant
            start <= i <= n,
            n == s@.len(),
            d == s@.skip(start as int),
            d == digits_of(s@),
            all_digits(d.take(i - start)),
            acc == decimal(d.take(i - start)),
            acc <= u32::MAX,
        decreases n - i,
    {
        let c = s.get_char(i);
        if c < '0' || c > '9' {
            proof {
                assert(d[i - start] == c);
            }
            return None;
        }
        let digit = (c as u32 - '0' as u32) as u64;
        let ghost prev = acc;
        acc = acc * 10 + digit;
        proof {
            let t = d.take(i + 1 - start);
            assert(d[i - start] == c);
            assert(t.drop_last() =~= d.take(i - start));
            assert(t.last() == c);
            assert(decimal(t) == decimal(t.drop_last()) * 10 + (t.last() as int - '0' as int));
            assert(acc == decimal(t));
            assert(all_digits(t)) by {
                assert forall|k: int| 0 <= k < t.len() implies '0' <= #[trigger] t[k] <= '9' by {
                    if k < t.len() - 1 {
                        assert(t[k] == d.take(i - start)[k]);
                    }
                }
            }
        }
        if acc > 0xffff_ffff {
            proof {
                let t = d.take(i + 1 - start);
                if all_digits(d) {
                    lemma_decimal_prefix(d, i + 1 - start);
                }
            }
            return None;
        }
        i = i + 1;
    }
    proof {
        assert(d.take(n - start) =~= d);
    }
    Some(acc as u32)
}

/// Reads `--port` style values: `Ok` with the port set, or the port error.
fn apply_port(result: &mut Args, v: &str) -> (r: Result<(), ArgsError>)
    ensures
        match with_port(old(result).model(), v@) {
            Ok(m) => r is Ok && final(result).model() == m,
            Err(e) => r == Err::<(), ArgsError>(e),
        },
{
    match parse_u32(v) {
        Some(p) => {
            result.port = p;
            Ok(())
        },
        None => Err(ArgsError::InvalidPort),
    }
}

impl Args {
    /// Parses the runner's arguments (the program name excluded). Flags take
    /// their value from the next argument or after `=`; the last occurrence
    /// of a flag wins. Fails on a port that is not a decimal `u32`, or when
    /// none of example, binary and package is given.
    pub fn parse(args: &Vec<String>) -> (r: Result<Args, ArgsError>)
        ensures
            match parse_from(args_view(args@), 0, default_model()) {
                Ok(m) => r matches Ok(a) && a.model() == m,
                Err(e) => r matches Err(e2) && e2 == e,
            },
    {
        let mut result = Args { example: None, bin: None, package: None, release: false, profile: None, port: 8000 };
        let n = args.len();
        let ghost av = args_view(args@);
        let mut i: usize = 0;
        while i < n
            invariant
                0 <= i <= n,
                n == args@.len(),
                av == args_view(args@),
                parse_from(av, i as int, result.model()) == parse_from(av, 0, default_model()),
            decreases n - i,
        {
            proof {
                reveal_strlit("--example=");
                reveal_strlit("--bin=");
                reveal_strlit("-p=");
                reveal_strlit("--package=");
                reveal_strlit("--profile=");
                reveal_strlit("--port=");
            }
            let ghost m = result.model();
            let a = args[i].as_str();
            let next = if i + 1 < n { Some(args[i + 1].clone()) } else { None };
            proof {
                assert(av[i as int] == a@);
                assert(opt_view(next) == next_value(av, i as int));
            }
            let mut advance: usize = 1;
            if str_eq(a, "--example") {
                result.example = next;
                advance = 2;
            } else if str_eq(a, "--bin") {
                result.bin = next;
                advance = 2;
            } else if str_eq(a, "-p") || str_eq(a, "--package") {
                result.package = next;
                advance = 2;
            } else if str_eq(a, "--release") {
                result.release = true;
            } else if str_eq(a, "--profile") {
                result.profile = next;
                advance = 2;
            } else if str_eq(a, "--port") {
                advance = 2;
                if let Some(v) = next {
                    match apply_port(&mut result, v.as_str()) {
                        Ok(()) => {},
                        Err(e) => {
                            return Err(e);
                        },
                    }
                }
            } else if starts_with(a, "--example=") {
                result.example = Some(suffix_after(a, 10));
            } else if starts_with(a, "--bin=") {
                result.bin = Some(suffix_after(a, 6));
            } else if starts_with(a, "-p=") {
                result.package = Some(suffix_after(a, 3));
            } else if starts_with(a, "--package=") {
                result.package = Some(suffix_after(a, 10));
            } else if starts_with(a, "--profile=") {
                result.profile = Some(suffix_after(a, 10));
            } else if starts_with(a, "--port=") {
                let v = suffix_after(a, 7);
                match apply_port(&mut result, v.as_str()) {
                    Ok(()) => {},
                    Err(e) => {
                        return Err(e);
                    },
                }
            }
            proof {
                let (j, rr) = step(av, i as int, m);
                assert(rr == Ok::<ArgsModel, ArgsError>(result.model()));
                assert(j == i + advance);
            }
            if advance == 2 && i + 1 >= n {
                i = n;
            } else {
                i = i + advance;
            }
        }
        if result.example.is_none() && result.bin.is_none() && result.package.is_none() {
            return Err(ArgsError::MissingTarget);
        }
        Ok(result)
    }

    /// Name of the built artifact: the example, else the binary, else the package.
    pub fn binary_name(&self) -> (r: String)
        requires
            self.example is Some || self.bin is Some || self.package is Some,
        ensures
            r@ == (match self.example {
                Some(e) => e@,
                None => match self.bin {
                    Some(b) => b@,
                    None => self.package.unwrap()@,
                },
            }),
    {
        match &self.example {
            Some(e) => e.clone(),
            None => match &self.bin {
                Some(b) => b.clone(),
                None => match &self.package {
                    Some(p) => p.clone(),
                    None => vstd::pervasive::unreached(),
                },
            },
        }
    }

    /// Directory cargo builds the profile into: `release` for release
    /// builds, `debug` for the `dev` profile or when none is given, else the
    /// profile's own name.
    pub fn profile_dir(&self) -> (r: &str)
        ensures
            r@ == (if self.release {
                "release"@
            } else {
                match self.profile {
                    Some(p) => if p@ == "dev"@ { "debug"@ } else { p@ },
                    None => "debug"@,
                }
            }),
    {
        if self.release {
            "release"
        } else {
            match &self.profile {
                Some(profile) => {
                    if str_eq(profile.as_str(), "dev") {
                        "debug"
                    } else {
                        profile.as_str()
                    }
                },
                None => "debug",
            }
        }
    }
}

/// The arguments of the cargo build: build for `wasm32-unknown-unknown`,
/// then the example, binary and package flags that are set, then
/// `--release`, or else the profile when one is given.
pub open spec fn cargo_args_spec(m: ArgsModel) -> Seq<Seq<char>> {
    seq!["build"@, "--target"@, "wasm32-unknown-unknown"@] + (match m.example {
        Some(e) => seq!["--example"@, e],
        None => Seq::empty(),
    }) + (match m.bin {
        Some(b) => seq!["--bin"@, b],
        None => Seq::empty(),
    }) + (match m.package {
        Some(p) => seq!["-p"@, p],
        None => Seq::empty(),
    }) + (if m.release {
        seq!["--release"@]
    } else {
        match m.profile {
            Some(p) => seq!["--profile"@, p],
            None => Seq::empty(),
        }
    })
}

/// Every target flag given reaches cargo, whatever else is given: the
/// arguments start with a build for `wasm32-unknown-unknown`, hold
/// `--example`, `--bin` and `-p` each followed by its value whenever the
/// example, binary or package is given, and end with `--release` for a
/// release build.
pub proof fn lemma_cargo_args_carry_targets(m: ArgsModel)
    ensures
        ({
            let r = cargo_args_spec(m);
            &&& r.len() >= 3
            &&& r[0] == "build"@ && r[1] == "--target"@ && r[2] == "wasm32-unknown-unknown"@
            &&& m.example matches Some(x) ==> exists|i: int|
                3 <= i < r.len() - 1 && #[trigger] r[i] == "--example"@ && r[i + 1] == x
            &&& m.bin matches Some(x) ==> exists|i: int|
                3 <= i < r.len() - 1 && #[trigger] r[i] == "--bin"@ && r[i + 1] == x
            &&& m.package matches Some(x) ==> exists|i: int|
                3 <= i < r.len() - 1 && #[trigger] r[i] == "-p"@ && r[i + 1] == x
            &&& m.release ==> r[r.len() - 1] == "--release"@
        }),
{
    let base = seq!["build"@, "--target"@, "wasm32-unknown-unknown"@];
    let ex = match m.example {
        Some(e) => seq!["--example"@, e],
        None => Seq::<Seq<char>>::empty(),
    };
    let bn = match m.bin {
        Some(b) => seq!["--bin"@, b],
        None => Seq::<Seq<char>>::empty(),
    };
    let pk = match m.package {
        Some(p) => seq!["-p"@, p],
        None => Seq::<Seq<char>>::empty(),
    };
    let tl = if m.release {
        seq!["--release"@]
    } else {
        match m.profile {
            Some(p) => seq!["--profile"@, p],
            None => Seq::<Seq<char>>::empty(),
        }
    };
    let r = cargo_args_spec(m);
    assert(r == base + ex + bn + pk + tl);
    let n0 = 3int;
    let n1 = n0 + ex.len();
    let n2 = n1 + bn.len();
    let n3 = n2 + pk.len();
    assert(r.len() == n3 + tl.len());
    assert(r[0] == base[0] && r[1] == base[1] && r[2] == base[2]);
    if let Some(x) = m.example {
        assert(r[n0] == ex[0] && r[n0 + 1] == ex[1]);
    }
    if let Some(x) = m.bin {
        assert(r[n1] == bn[0] && r[n1 + 1] == bn[1]);
    }
    if let Some(x) = m.package {
        assert(r[n2] == pk[0] && r[n2 + 1] == pk[1]);
    }
    if m.release {
        assert(r[r.len() - 1] == tl[0]);
    }
}

/// Profile directory of a model, as `profile_dir` computes it.
pub open spec fn profile_dir_spec(m: ArgsModel) -> Seq<char> {
    if m.release {
        "release"@
    } else {
        match m.profile {
            Some(p) => if p == "dev"@ { "debug"@ } else { p },
            None => "debug"@,
        }
    }
}

/// Name of the built artifact of a model, as `binary_name` computes it.
pub open spec fn binary_name_spec(m: ArgsModel) -> Seq<char> {
    match m.example {
        Some(e) => e,
        None => match m.bin {
            Some(b) => b,
            None => m.package.unwrap(),
        },
    }
}

/// Appends a path component the way a Unix path buffer does: an absolute
/// component replaces the path; otherwise a separator is added unless the
/// path is empty or already ends with one.
pub open spec fn join_path(base: Seq<char>, comp: Seq<char>) -> Seq<char> {
    if comp.len() > 0 && comp[0] == '/' {
        comp
    } else if base.len() == 0 || base.last() == '/' {
        base + comp
    } else {
        base + seq!['/'] + comp
    }
}

/// Where the built `.wasm` file lies: under
/// `target/wasm32-unknown-unknown/<profile dir>`, in `examples` for an
/// example, named after the artifact.
pub open spec fn wasm_path_spec(m: ArgsModel) -> Seq<char> {
    let dir = join_path("target/wasm32-unknown-unknown"@, profile_dir_spec(m));
    let file = binary_name_spec(m) + ".wasm"@;
    if m.example is Some {
        join_path(join_path(dir, "examples"@), file)
    } else {
        join_path(dir, file)
    }
}

/// `base` with `comp` appended as a path component.
pub fn path_join(base: String, comp: &str) -> (r: String)
    ensures
        r@ == join_path(base@, comp@),
{
    let cn = comp.unicode_len();
    if cn > 0 && comp.get_char(0) == '/' {
        return comp.to_owned();
    }
    let bn = base.as_str().unicode_len();
    if bn == 0 || base.as_str().get_char(bn - 1) == '/' {
        base.concat(comp)
    } else {
        let with_sep = base.concat("/");
        proof {
            reveal_strlit("/");
        }
        with_sep.concat(comp)
    }
}

impl Args {
    /// Arguments of the cargo build command.
    pub fn cargo_args(&self) -> (r: Vec<String>)
        ensures
            r@.map_values(|s: String| s@) == cargo_args_spec(self.model()),
    {
        let mut args: Vec<String> = Vec::new();
        args.push("build".to_owned());
        args.push("--target".to_owned());
        args.push("wasm32-unknown-unknown".to_owned());
        let ghost base = args@.map_values(|s: String| s@);
        proof {
            assert(base =~= seq!["build"@, "--target"@, "wasm32-unknown-unknown"@]);
        }
        if let Some(example) = &self.example {
            args.push("--example".to_owned());
            args.push(example.clone());
        }
        let ghost after_example = args@.map_values(|s: String| s@);
        proof {
            assert(after_example =~= base + (match self.model().example {
                Some(e) => seq!["--example"@, e],
                None => Seq::empty(),
            }));
        }
        if let Some(bin) = &self.bin {
            args.push("--bin".to_owned());
            args.push(bin.clone());
        }
        let ghost after_bin = args@.map_values(|s: String| s@);
        proof {
            assert(after_bin =~= after_example + (match self.model().bin {
                Some(b) => seq!["--bin"@, b],
                None => Seq::empty(),
            }));
        }
        if let Some(package) = &self.package {
            args.push("-p".to_owned());
            args.push(package.clone());
        }
        let ghost after_package = args@.map_values(|s: String| s@);
        proof {
            assert(after_package =~= after_bin + (match self.model().package {
                Some(p) => seq!["-p"@, p],
                None => Seq::empty(),
            }));
        }
        if self.release {
            args.push("--release".to_owned());
        } else if let Some(profile) = &self.profile {
            args.push("--profile".to_owned());
            args.push(profile.clone());
        }
        proof {
            assert(args@.map_values(|s: String| s@) =~= cargo_args_spec(self.model()));
        }
        args
    }

    /// Path of the built `.wasm` file.
    pub fn wasm_file_path(&self) -> (r: String)
        requires
            self.example is Some || self.bin is Some || self.package is Some,
        ensures
            r@ == wasm_path_spec(self.model()),
    {
        let dir = path_join("target/wasm32-unknown-unknown".to_owned(), self.profile_dir());
        let file = self.binary_name().concat(".wasm");
        if self.example.is_some() {
            path_join(path_join(dir, "examples"), file.as_str())
        } else {
            path_join(dir, file.as_str())
        }
    }
}

} // verus!
