//! The step data model, platform resolution, and the per-step execution
//! plan: which commands a step launches, with which expanded arguments.

use vstd::prelude::*;

use crate::condition;
use crate::err::Error;
use crate::template;
use crate::template::views_of;

verus! {

/// The host platform: one of three supported families, with the Linux
/// family carrying a `(distro id, pretty name)` pair read from the system
/// descriptor. `Any` is a wildcard used only as a declared target of a step,
/// never as a detection result.
#[derive(Debug)]
pub enum OsTarget {
    Any,
    Windows,
    Mac,
    Linux((String, String)),
}

impl Clone for OsTarget {
    fn clone(&self) -> (r: Self)
        ensures
            r == *self,
    {
        match self {
            OsTarget::Any => OsTarget::Any,
            OsTarget::Windows => OsTarget::Windows,
            OsTarget::Mac => OsTarget::Mac,
            OsTarget::Linux(p) => OsTarget::Linux((p.0.clone(), p.1.clone())),
        }
    }
}

impl OsTarget {
    /// The canonical lowercase name bound to the context variable `os`.
    pub open spec fn spec_key(&self) -> Seq<char> {
        match self {
            OsTarget::Any => "any"@,
            OsTarget::Windows => "windows"@,
            OsTarget::Mac => "macos"@,
            OsTarget::Linux(_) => "linux"@,
        }
    }

    /// The distro id bound to the context variable `linux_distro`: the first
    /// component of the Linux pair, empty for every other family.
    pub open spec fn spec_distro(&self) -> Seq<char> {
        match self {
            OsTarget::Linux(p) => p.0@,
            _ => Seq::<char>::empty(),
        }
    }

    /// The canonical lowercase name of the family.
    pub fn canonical_key(&self) -> (r: &str)
        ensures
            r@ == self.spec_key(),
    {
        match self {
            OsTarget::Any => "any",
            OsTarget::Windows => "windows",
            OsTarget::Mac => "macos",
            OsTarget::Linux(_) => "linux",
        }
    }

    /// The distro id, empty for every family but Linux.
    pub fn distro_id(&self) -> (r: &str)
        ensures
            r@ == self.spec_distro(),
    {
        match self {
            OsTarget::Linux(p) => p.0.as_str(),
            _ => {
                proof {
                    reveal_strlit("");
                    assert(""@ =~= Seq::<char>::empty());
                }
                ""
            },
        }
    }
}

/// One command of a step: a program and its raw, not yet expanded argument
/// list.
#[derive(Debug)]
pub struct Cmd {
    pub cmd: String,
    pub args: Vec<String>,
}

/// Copies a vector of strings, element by element.
fn clone_strings(v: &Vec<String>) -> (r: Vec<String>)
    ensures
        r@ == v@,
{
    let mut out: Vec<String> = Vec::new();
    template::push_all(&mut out, v);
    proof {
        assert(Seq::<String>::empty() + v@ =~= v@);
    }
    out
}

impl Clone for Cmd {
    fn clone(&self) -> (r: Self)
        ensures
            r.cmd == self.cmd,
            r.args@ == self.args@,
    {
        Cmd { cmd: self.cmd.clone(), args: clone_strings(&self.args) }
    }
}

impl Default for Cmd {
    fn default() -> (r: Self)
        ensures
            r.cmd@ == Seq::<char>::empty(),
            r.args@ == Seq::<String>::empty(),
    {
        Cmd { cmd: String::new(), args: Vec::new() }
    }
}

/// Two command sequences that hold the same programs and the same argument
/// strings, position by position.
pub open spec fn cmds_equiv(a: Seq<Cmd>, b: Seq<Cmd>) -> bool {
    &&& a.len() == b.len()
    &&& forall|i: int| 0 <= i < a.len() ==> a[i].cmd == b[i].cmd && a[i].args@ == b[i].args@
}

/// Copies a vector of commands, element by element.
fn clone_cmds(v: &Vec<Cmd>) -> (r: Vec<Cmd>)
    ensures
        cmds_equiv(r@, v@),
{
    let mut out: Vec<Cmd> = Vec::new();
    let mut k: usize = 0;
    while k < v.len()
        invariant
            k <= v@.len(),
            out@.len() == k,
            forall|i: int| 0 <= i < k ==> out@[i].cmd == v@[i].cmd && out@[i].args@ == v@[i].args@,
        decreases v@.len() - k,
    {
        out.push(v[k].clone());
        k = k + 1;
    }
    out
}

/// A named, conditionally gated unit of work: a list of commands, run in
/// order when the step's condition holds on the current platform.
#[derive(Debug)]
pub struct Step {
    pub name: String,
    pub description: String,
    pub type_step: String,
    pub commands: Vec<Cmd>,
    pub os_target: String,
    pub show_outputs: bool,
    pub sentence: String,
}

/// Two steps that hold the same field contents.
pub open spec fn step_equiv(a: Step, b: Step) -> bool {
    &&& a.name == b.name
    &&& a.description == b.description
    &&& a.type_step == b.type_step
    &&& cmds_equiv(a.commands@, b.commands@)
    &&& a.os_target == b.os_target
    &&& a.show_outputs == b.show_outputs
    &&& a.sentence == b.sentence
}

impl Clone for Step {
    fn clone(&self) -> (r: Self)
        ensures
            step_equiv(r, *self),
    {
        Step {
            name: self.name.clone(),
            description: self.description.clone(),
            type_step: self.type_step.clone(),
            commands: clone_cmds(&self.commands),
            os_target: self.os_target.clone(),
            show_outputs: self.show_outputs,
            sentence: self.sentence.clone(),
        }
    }
}

/// The default kind label of a step.
pub fn default_type_step() -> (r: String)
    ensures
        r@ == "Custom"@,
{
    String::from_str("Custom")
}

/// The default declared target of a step: the wildcard.
pub fn default_os_target() -> (r: String)
    ensures
        r@ == "Any"@,
{
    String::from_str("Any")
}

impl Default for Step {
    fn default() -> (r: Self)
        ensures
            r.name@ == Seq::<char>::empty(),
            r.description@ == Seq::<char>::empty(),
            r.type_step@ == "Custom"@,
            r.commands@ == Seq::<Cmd>::empty(),
            r.os_target@ == "Any"@,
            r.show_outputs == false,
            r.sentence@ == Seq::<char>::empty(),
    {
        Step {
            name: String::new(),
            description: String::new(),
            type_step: default_type_step(),
            commands: Vec::new(),
            os_target: default_os_target(),
            show_outputs: false,
            sentence: String::new(),
        }
    }
}

/// The ordered step list a run executes, in insertion order.
#[derive(Debug)]
pub struct ConfigInstall {
    pub steps: Vec<Step>,
}

impl Default for ConfigInstall {
    fn default() -> (r: Self)
        ensures
            r.steps@ == Seq::<Step>::empty(),
    {
        ConfigInstall { steps: Vec::new() }
    }
}

/// The whole configuration: for now, just the installation step list.
#[derive(Debug)]
pub struct Configs {
    pub config_install: ConfigInstall,
}

impl Default for Configs {
    fn default() -> (r: Self)
        ensures
            r.config_install.steps@ == Seq::<Step>::empty(),
    {
        Configs { config_install: ConfigInstall::default() }
    }
}

/// Holds of the least index at which `l` carries the key/value separator.
pub open spec fn is_first_eq(l: Seq<char>, j: int) -> bool {
    &&& 0 <= j < l.len()
    &&& l[j] == '='
    &&& forall|k: int| 0 <= k < j ==> l[k] != '='
}

/// True when `l` carries a key/value separator at all.
pub open spec fn has_eq(l: Seq<char>) -> bool {
    exists|j: int| is_first_eq(l, j)
}

/// The least index at which `l` carries the key/value separator.
pub open spec fn eq_of(l: Seq<char>) -> int {
    choose|j: int| is_first_eq(l, j)
}

/// A first separator is unique, so it is the one `eq_of` picks.
proof fn lemma_first_eq_is(l: Seq<char>, j: int)
    requires
        is_first_eq(l, j),
    ensures
        has_eq(l),
        eq_of(l) == j,
{
    assert(has_eq(l));
    let j2 = eq_of(l);
    assert(is_first_eq(l, j2));
    if j2 < j {
        assert(l[j2] == '=');
        assert(false);
    } else if j2 > j {
        assert(l[j] == '=');
        assert(false);
    }
}

/// A line without a separator has no first separator at all.
proof fn lemma_no_eq(l: Seq<char>)
    requires
        forall|k: int| 0 <= k < l.len() ==> l[k] != '=',
    ensures
        !has_eq(l),
{
    if has_eq(l) {
        let j = eq_of(l);
        assert(is_first_eq(l, j));
        assert(false);
    }
}

/// A value with one leading and one trailing double quote removed, each when
/// present; nothing else is unescaped.
pub open spec fn spec_unquote(v: Seq<char>) -> Seq<char> {
    let v1 = if v.len() > 0 && v[0] == '"' {
        v.skip(1)
    } else {
        v
    };
    if v1.len() > 0 && v1[v1.len() - 1] == '"' {
        v1.take(v1.len() - 1)
    } else {
        v1
    }
}

/// What a `KEY=VALUE` line yields: the text before the first separator as
/// the key and the unquoted text after it as the value, or nothing for a
/// line without a separator.
pub open spec fn spec_parse_line(l: Seq<char>) -> Option<(Seq<char>, Seq<char>)> {
    if has_eq(l) {
        Some((l.take(eq_of(l)), spec_unquote(l.skip(eq_of(l) + 1))))
    } else {
        None
    }
}

/// Strips one leading and one trailing double quote, each when present.
fn unquote(v: &str) -> (r: String)
    ensures
        r@ == spec_unquote(v@),
{
    let n = v.unicode_len();
    let start: usize = if n > 0 && v.get_char(0) == '"' {
        1
    } else {
        0
    };
    let end: usize = if n > start && v.get_char(n - 1) == '"' {
        n - 1
    } else {
        n
    };
    proof {
        let v1 = if v@.len() > 0 && v@[0] == '"' {
            v@.skip(1)
        } else {
            v@
        };
        assert(v1 =~= v@.subrange(start as int, n as int));
        assert(spec_unquote(v@) =~= v@.subrange(start as int, end as int));
    }
    String::from_str(v.substring_char(start, end))
}

/// Splits a `KEY=VALUE` line at its first separator and unquotes the value;
/// a line without a separator yields nothing.
pub fn parse_line(l: String) -> (r: Option<(String, String)>)
    ensures
        r is Some <==> has_eq(l@),
        r matches Some(kv) ==> has_eq(l@) && kv.0@ == l@.take(eq_of(l@)) && kv.1@ == spec_unquote(
            l@.skip(eq_of(l@) + 1),
        ),
{
    let s = l.as_str();
    let n = s.unicode_len();
    let mut e: usize = 0;
    while e < n && s.get_char(e) != '='
        invariant
            n == s@.len(),
            e <= n,
            forall|k: int| 0 <= k < e ==> s@[k] != '=',
        decreases n - e,
    {
        e = e + 1;
    }
    if e < n {
        proof {
            lemma_first_eq_is(s@, e as int);
        }
        let key = String::from_str(s.substring_char(0, e));
        let value = unquote(s.substring_char(e + 1, n));
        proof {
            assert(s@.subrange(0, e as int) =~= s@.take(e as int));
            assert(s@.subrange(e + 1, n as int) =~= s@.skip(e + 1));
        }
        Some((key, value))
    } else {
        proof {
            lemma_no_eq(s@);
        }
        None
    }
}

/// The whitespace that surrounds a descriptor line and is ignored.
pub open spec fn is_space(c: char) -> bool {
    c == ' ' || c == '\t' || c == '\r' || c == '\n'
}

/// `s` without its leading whitespace.
pub open spec fn spec_trim_start(s: Seq<char>) -> Seq<char>
    decreases s.len(),
{
    if s.len() > 0 && is_space(s[0]) {
        spec_trim_start(s.skip(1))
    } else {
        s
    }
}

/// `s` without its trailing whitespace.
pub open spec fn spec_trim_end(s: Seq<char>) -> Seq<char>
    decreases s.len(),
{
    if s.len() > 0 && is_space(s[s.len() - 1]) {
        spec_trim_end(s.take(s.len() - 1))
    } else {
        s
    }
}

/// `s` without its leading and trailing whitespace.
pub open spec fn spec_trim(s: Seq<char>) -> Seq<char> {
    spec_trim_end(spec_trim_start(s))
}

/// Decides whether a character is ignorable whitespace.
fn is_space_char(c: char) -> (r: bool)
    ensures
        r == is_space(c),
{
    c == ' ' || c == '\t' || c == '\r' || c == '\n'
}

/// Strips leading and trailing whitespace.
fn trim_str(s: &str) -> (r: String)
    ensures
        r@ == spec_trim(s@),
{
    let n = s.unicode_len();
    let mut lo: usize = 0;
    proof {
        assert(s@.skip(0) =~= s@);
    }
    while lo < n && is_space_char(s.get_char(lo))
        invariant
            n == s@.len(),
            lo <= n,
            spec_trim_start(s@) == spec_trim_start(s@.skip(lo as int)),
        decreases n - lo,
    {
        proof {
            assert(s@.skip(lo as int).skip(1) =~= s@.skip(lo + 1));
        }
        lo = lo + 1;
    }
    let ghost t = s@.skip(lo as int);
    proof {
        assert(spec_trim_start(s@) == t);
        assert(t.take((n - lo) as int) =~= t);
    }
    let mut hi: usize = n;
    while hi > lo && is_space_char(s.get_char(hi - 1))
        invariant
            n == s@.len(),
            lo <= hi <= n,
            t == s@.skip(lo as int),
            spec_trim_end(t) == spec_trim_end(t.take((hi - lo) as int)),
        decreases hi,
    {
        proof {
            let u = t.take((hi - lo) as int);
            assert(u[u.len() - 1] == s@[hi - 1]);
            assert(u.take(u.len() - 1) =~= t.take((hi - 1 - lo) as int));
        }
        hi = hi - 1;
    }
    proof {
        let u = t.take((hi - lo) as int);
        if u.len() > 0 {
            assert(u[u.len() - 1] == s@[hi - 1]);
        }
        assert(spec_trim_end(u) == u);
        assert(u =~= s@.subrange(lo as int, hi as int));
    }
    String::from_str(s.substring_char(lo, hi))
}

/// Feeds one descriptor line into the running `(distro id, pretty name)`
/// pair: `ID` replaces the first component, `PRETTY_NAME` the second, and
/// every other line leaves the pair alone.
pub open spec fn apply_line(line: Seq<char>, id: Seq<char>, name: Seq<char>) -> (Seq<char>, Seq<
    char,
>) {
    match spec_parse_line(spec_trim(line)) {
        Some(kv) => if kv.0 == "ID"@ {
            (kv.1, name)
        } else if kv.0 == "PRETTY_NAME"@ {
            (id, kv.1)
        } else {
            (id, name)
        },
        None => (id, name),
    }
}

/// Walks the descriptor character by character, collecting the current line
/// and folding each completed line into the running pair.
pub open spec fn scan_descriptor(
    s: Seq<char>,
    line: Seq<char>,
    id: Seq<char>,
    name: Seq<char>,
) -> (Seq<char>, Seq<char>)
    decreases s.len(),
{
    if s.len() == 0 {
        apply_line(line, id, name)
    } else if s[0] == '\n' {
        let p = apply_line(line, id, name);
        scan_descriptor(s.skip(1), Seq::empty(), p.0, p.1)
    } else {
        scan_descriptor(s.skip(1), line.push(s[0]), id, name)
    }
}

/// The `(distro id, pretty name)` pair a descriptor yields, with the
/// defaults for keys the descriptor does not carry.
pub open spec fn spec_descriptor(s: Seq<char>) -> (Seq<char>, Seq<char>) {
    scan_descriptor(s, Seq::empty(), "linux"@, "Linux"@)
}

/// Holds of a line that names neither meaningful key: once trimmed, it
/// carries no separator, or a key other than `ID` and `PRETTY_NAME`.
pub open spec fn line_inert(l: Seq<char>) -> bool {
    match spec_parse_line(spec_trim(l)) {
        Some(kv) => kv.0 != "ID"@ && kv.0 != "PRETTY_NAME"@,
        None => true,
    }
}

/// Holds when every line of `s` is inert, the partly read line `line`
/// included.
pub open spec fn descriptor_inert(s: Seq<char>, line: Seq<char>) -> bool
    decreases s.len(),
{
    if s.len() == 0 {
        line_inert(line)
    } else if s[0] == '\n' {
        line_inert(line) && descriptor_inert(s.skip(1), Seq::empty())
    } else {
        descriptor_inert(s.skip(1), line.push(s[0]))
    }
}

/// A scan over inert lines leaves the running pair alone.
proof fn lemma_scan_inert(s: Seq<char>, line: Seq<char>, id: Seq<char>, name: Seq<char>)
    requires
        descriptor_inert(s, line),
    ensures
        scan_descriptor(s, line, id, name) == (id, name),
    decreases s.len(),
{
    if s.len() == 0 {
    } else if s[0] == '\n' {
        lemma_scan_inert(s.skip(1), Seq::empty(), id, name);
    } else {
        lemma_scan_inert(s.skip(1), line.push(s[0]), id, name);
    }
}

/// A descriptor that carries neither an `ID` line nor a `PRETTY_NAME` line
/// yields the defaults `("linux", "Linux")`, whatever else it holds.
pub proof fn lemma_descriptor_defaults(s: Seq<char>)
    requires
        descriptor_inert(s, Seq::empty()),
    ensures
        spec_descriptor(s) == ("linux"@, "Linux"@),
{
    lemma_scan_inert(s, Seq::empty(), "linux"@, "Linux"@);
}

/// Folds one completed line into the running pair.
fn apply_line_exec(line: &str, id: String, name: String) -> (r: (String, String))
    ensures
        r.0@ == apply_line(line@, id@, name@).0,
        r.1@ == apply_line(line@, id@, name@).1,
{
    let t = trim_str(line);
    match parse_line(t) {
        Some(kv) => {
            if template::str_eq(kv.0.as_str(), "ID") {
                (kv.1, name)
            } else if template::str_eq(kv.0.as_str(), "PRETTY_NAME") {
                (id, kv.1)
            } else {
                (id, name)
            }
        },
        None => (id, name),
    }
}

/// Parses a system descriptor: line-oriented `KEY=VALUE` text, values
/// unwrapped of one pair of double quotes, of which only the keys `ID` and
/// `PRETTY_NAME` are meaningful. Missing keys keep the defaults
/// `("linux", "Linux")`.
pub fn parse_descriptor(content: &str) -> (r: (String, String))
    ensures
        r.0@ == spec_descriptor(content@).0,
        r.1@ == spec_descriptor(content@).1,
{
    let n = content.unicode_len();
    let mut line = String::new();
    let mut id = String::from_str("linux");
    let mut name = String::from_str("Linux");
    let mut i: usize = 0;
    proof {
        assert(content@.skip(0) =~= content@);
    }
    while i < n
        invariant
            n == content@.len(),
            i <= n,
            scan_descriptor(content@.skip(i as int), line@, id@, name@) == spec_descriptor(
                content@,
            ),
        decreases n - i,
    {
        let ghost s0 = content@.skip(i as int);
        let ghost l0 = line@;
        let ghost id0 = id@;
        let ghost nm0 = name@;
        let c = content.get_char(i);
        if c == '\n' {
            let pair = apply_line_exec(line.as_str(), id, name);
            id = pair.0;
            name = pair.1;
            line = String::new();
            proof {
                assert(s0.skip(1) =~= content@.skip(i + 1));
                assert(scan_descriptor(s0, l0, id0, nm0) == scan_descriptor(
                    content@.skip(i + 1),
                    line@,
                    id@,
                    name@,
                ));
            }
        } else {
            line.append(content.substring_char(i, i + 1));
            proof {
                assert(s0.skip(1) =~= content@.skip(i + 1));
                assert(line@ =~= l0.push(s0[0]));
                assert(scan_descriptor(s0, l0, id0, nm0) == scan_descriptor(
                    content@.skip(i + 1),
                    line@,
                    id@,
                    name@,
                ));
            }
        }
        i = i + 1;
    }
    proof {
        assert(content@.skip(n as int) =~= Seq::<char>::empty());
    }
    apply_line_exec(line.as_str(), id, name)
}

/// Resolves the host platform from its reported OS name and, for Linux, the
/// system descriptor handed in by the caller: the descriptor's content when
/// it could be read, or the read failure's message when it could not.
pub fn resolve_os(os_name: &str, descriptor: Result<&str, String>) -> (r: Result<OsTarget, Error>)
    ensures
        ({
            let nm = os_name@;
            if nm == "windows"@ {
                r == Ok::<OsTarget, Error>(OsTarget::Windows)
            } else if nm == "macos"@ {
                r == Ok::<OsTarget, Error>(OsTarget::Mac)
            } else if nm == "linux"@ {
                match descriptor {
                    Ok(d) => r matches Ok(t) && t matches OsTarget::Linux(p) && p.0@
                        == spec_descriptor(d@).0 && p.1@ == spec_descriptor(d@).1,
                    Err(m) => r == Err::<OsTarget, Error>(Error::IO(m)),
                }
            } else {
                r == Err::<OsTarget, Error>(Error::UnsupportedSystem)
            }
        }),
{
    if template::str_eq(os_name, "windows") {
        Ok(OsTarget::Windows)
    } else if template::str_eq(os_name, "macos") {
        Ok(OsTarget::Mac)
    } else if template::str_eq(os_name, "linux") {
        match descriptor {
            Ok(d) => Ok(OsTarget::Linux(parse_descriptor(d))),
            Err(m) => Err(Error::IO(m)),
        }
    } else {
        Err(Error::UnsupportedSystem)
    }
}

/// One planned process launch: a program and its fully expanded arguments.
#[derive(Debug)]
pub struct CommandPlan {
    pub program: String,
    pub args: Vec<String>,
}

/// What a step does on the current platform: nothing at all, or one process
/// launch per command, in declared order.
#[derive(Debug)]
pub enum StepPlan {
    Skipped,
    Run(Vec<CommandPlan>),
}

/// The plans mirror the commands: same programs in the same order, each
/// argument list expanded against the option list.
pub open spec fn plans_match(ps: Seq<CommandPlan>, cmds: Seq<Cmd>, opts: Seq<Seq<char>>) -> bool {
    &&& ps.len() == cmds.len()
    &&& forall|i: int|
        0 <= i < ps.len() ==> ps[i].program@ == cmds[i].cmd@ && views_of(ps[i].args@)
            == template::spec_expand(views_of(cmds[i].args@), opts)
}

impl Step {
    /// Decides what this step does on the given platform: its condition,
    /// evaluated over the platform facts, either skips the step, plans one
    /// launch per command with expanded arguments, or fails as an invalid
    /// expression that carries the condition text.
    pub fn plan(&self, os: &OsTarget, options: &Vec<String>) -> (r: Result<StepPlan, Error>)
        ensures
            ({
                let verdict = if self.sentence@.len() == 0 {
                    Some(true)
                } else {
                    condition::eval_bool_of(self.sentence@, os.spec_key(), os.spec_distro())
                };
                match verdict {
                    Some(true) => r matches Ok(p) && p matches StepPlan::Run(ps) && plans_match(
                        ps@,
                        self.commands@,
                        views_of(options@),
                    ),
                    Some(false) => r == Ok::<StepPlan, Error>(StepPlan::Skipped),
                    None => r matches Err(e) && e matches Error::InvalidExpression(s) && s@
                        == self.sentence@,
                }
            }),
    {
        let run = match condition::evaluate(
            self.sentence.as_str(),
            os.canonical_key(),
            os.distro_id(),
        ) {
            Ok(b) => b,
            Err(e) => {
                return Err(e);
            },
        };
        if !run {
            return Ok(StepPlan::Skipped);
        }
        let mut plans: Vec<CommandPlan> = Vec::new();
        let mut k: usize = 0;
        while k < self.commands.len()
            invariant
                k <= self.commands@.len(),
                plans@.len() == k,
                forall|i: int|
                    0 <= i < k ==> plans@[i].program@ == self.commands@[i].cmd@ && views_of(
                        plans@[i].args@,
                    ) == template::spec_expand(views_of(self.commands@[i].args@), views_of(
                        options@,
                    )),
            decreases self.commands@.len() - k,
        {
            let c = &self.commands[k];
            let expanded = template::expand(&c.args, options);
            plans.push(CommandPlan { program: c.cmd.clone(), args: expanded });
            k = k + 1;
        }
        Ok(StepPlan::Run(plans))
    }
}

/// What one launched command came to: whether it exited successfully, the
/// numeric exit code where the platform reports one, and its captured
/// output streams. A non-zero exit status is ordinary outcome data, not an
/// error.
#[derive(Debug)]
pub struct CommandOutcome {
    pub exit_ok: bool,
    pub exit_code: Option<i32>,
    pub stdout: Vec<u8>,
    pub stderr: Vec<u8>,
}

/// Applies the fail-fast rule to one launch attempt: a command that could
/// not be launched at all aborts the remainder of its step with
/// `ExecFailed` carrying the launch failure's message, while a launched
/// command, whatever its exit status, lets the step continue with its
/// outcome.
pub fn spawn_verdict(spawn: Result<CommandOutcome, String>) -> (r: Result<CommandOutcome, Error>)
    ensures
        spawn matches Ok(o) ==> r == Ok::<CommandOutcome, Error>(o),
        spawn matches Err(m) ==> (r matches Err(e) && e matches Error::ExecFailed(s) && s@ == m@),
{
    match spawn {
        Ok(o) => Ok(o),
        Err(m) => Err(Error::ExecFailed(m)),
    }
}

/// How a step ended: skipped by its condition, or finished with one outcome
/// per launched command, in declared order.
#[derive(Debug)]
pub enum StepOutcome {
    Skipped,
    Finished(Vec<CommandOutcome>),
}

/// Which captured stream, if any, a finished command echoes: nothing unless
/// the step opted into verbose output; the captured standard output on
/// success; the captured standard error otherwise.
pub fn select_output<'a>(
    show_outputs: bool,
    success: bool,
    stdout: &'a Vec<u8>,
    stderr: &'a Vec<u8>,
) -> (r: Option<&'a Vec<u8>>)
    ensures
        !show_outputs ==> r is None,
        show_outputs && success ==> (r matches Some(v) && v@ == stdout@),
        show_outputs && !success ==> (r matches Some(v) && v@ == stderr@),
{
    if show_outputs {
        if success {
            Some(stdout)
        } else {
            Some(stderr)
        }
    } else {
        None
    }
}

} // verus!
