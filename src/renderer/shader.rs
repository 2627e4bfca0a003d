use vstd::prelude::*;
use vstd::string::StrSliceExecFns;
use vstd::string::StringExecFns;

verus! {

/// The stage that the lines of a combined shader source currently belong to
#[derive(Debug, Clone, Copy, PartialEq, Eq, Structural)]
pub enum ShaderStage {
    Undefined,
    Vertex,
    Fragment,
}

/// What can go wrong when a shader is built
#[derive(Debug, Clone, PartialEq, Eq)]
pub enum ShaderError {
    /// A line of code came before any stage directive.
    Parse,
    /// A stage failed to compile (or the program failed to link), with the
    /// driver's diagnostic log.
    Compile { stage: ShaderStage, log: String },
    /// The source could not be read, with the reason.
    Io(String),
}

/// The capacity of the buffer that a stage's diagnostic log is read into,
/// terminator included.
pub const INFO_LOG_CAPACITY: usize = 512;

/// A linked GPU shader program
#[derive(Debug)]
pub struct Shader {
    // The program id
    id: u32,
}

impl Shader {
    /// The program id as a spec value.
    pub closed spec fn id(&self) -> u32 {
        self.id
    }

    /// Wraps the id of a program that has been compiled and linked.
    pub fn linked(id: u32) -> (r: Self)
        ensures
            r.id() == id,
    {
        Shader { id }
    }

    /// Get the program id
    pub fn program(&self) -> (r: u32)
        ensures
            r == self.id(),
    {
        self.id
    }
}

/// Decides the outcome of compiling both stages from each stage's success
/// flag and diagnostic log. The vertex stage is checked first: where it
/// failed, its error is reported and the fragment stage is not looked at.
pub fn check_for_errors(vertex_ok: bool, vertex_log: String, fragment_ok: bool, fragment_log: String) -> (r: Result<(), ShaderError>)
    ensures
        r is Ok <==> vertex_ok && fragment_ok,
        !vertex_ok ==> (r matches Err(ShaderError::Compile { stage, log }) && stage == ShaderStage::Vertex && log@ == vertex_log@),
        vertex_ok && !fragment_ok ==> (r matches Err(ShaderError::Compile { stage, log }) && stage == ShaderStage::Fragment && log@ == fragment_log@),
{
    if !vertex_ok {
        return Err(ShaderError::Compile { stage: ShaderStage::Vertex, log: vertex_log });
    }
    if !fragment_ok {
        return Err(ShaderError::Compile { stage: ShaderStage::Fragment, log: fragment_log });
    }
    Ok(())
}

/// The length of the diagnostic text held in a log buffer: the bytes before
/// the first zero byte, and no more than the buffer's capacity less its
/// terminator.
pub fn info_log_len(buf: &Vec<u8>) -> (r: usize)
    ensures
        r <= buf@.len(),
        r < INFO_LOG_CAPACITY,
        forall|k: int| 0 <= k < r ==> buf@[k] != 0,
        r == buf@.len() || r == INFO_LOG_CAPACITY - 1 || buf@[r as int] == 0,
{
    let mut i: usize = 0;
    while i < buf.len() && i < INFO_LOG_CAPACITY - 1 && buf[i] != 0
        invariant
            i <= buf@.len(),
            i < INFO_LOG_CAPACITY,
            forall|k: int| 0 <= k < i ==> buf@[k] != 0,
        decreases buf@.len() - i,
    {
        i = i + 1;
    }
    i
}

/// The directive line that starts the vertex stage.
pub open spec fn vertex_directive() -> Seq<char> {
    seq!['#', 's', 't', 'a', 'g', 'e', ' ', 'v', 'e', 'r', 't', 'e', 'x']
}

/// The directive line that starts the fragment stage.
pub open spec fn fragment_directive() -> Seq<char> {
    seq!['#', 's', 't', 'a', 'g', 'e', ' ', 'f', 'r', 'a', 'g', 'm', 'e', 'n', 't']
}

/// Whether `pat` occurs in `s` at position `k`.
pub open spec fn occurs_at(s: Seq<char>, pat: Seq<char>, k: int) -> bool {
    0 <= k && k + pat.len() <= s.len() && s.subrange(k, k + pat.len()) == pat
}

/// Whether `pat` occurs anywhere in `s`.
pub open spec fn contains(s: Seq<char>, pat: Seq<char>) -> bool {
    exists|k: int| occurs_at(s, pat, k)
}

/// The pieces of `s` between newlines, as `str::split('\n')` yields them:
/// an empty text is one empty line, and a trailing newline ends in an empty line.
pub open spec fn split_lines(s: Seq<char>) -> Seq<Seq<char>>
    decreases s.len(),
{
    if s.len() == 0 {
        seq![Seq::<char>::empty()]
    } else {
        let ls = split_lines(s.drop_last());
        if s.last() == '\n' {
            ls.push(Seq::<char>::empty())
        } else {
            ls.update(ls.len() - 1, ls.last().push(s.last()))
        }
    }
}

/// Parse progress: the active stage and the vertex and fragment texts so far.
pub type ParseState = (ShaderStage, Seq<char>, Seq<char>);

/// One line's effect on the parse: empty lines are skipped, a directive line
/// switches the active stage, any other line is appended, newline-prefixed,
/// to the active stage's text; a code line before any directive fails.
pub open spec fn parse_line(st: ParseState, line: Seq<char>) -> Option<ParseState> {
    if line.len() == 0 {
        Some(st)
    } else if contains(line, vertex_directive()) {
        Some((ShaderStage::Vertex, st.1, st.2))
    } else if contains(line, fragment_directive()) {
        Some((ShaderStage::Fragment, st.1, st.2))
    } else {
        match st.0 {
            ShaderStage::Undefined => None,
            ShaderStage::Vertex => Some((st.0, st.1 + seq!['\n'] + line, st.2)),
            ShaderStage::Fragment => Some((st.0, st.1, st.2 + seq!['\n'] + line)),
        }
    }
}

/// The parse of a sequence of lines, in order, from the undefined stage.
pub open spec fn parse_lines(lines: Seq<Seq<char>>) -> Option<ParseState>
    decreases lines.len(),
{
    if lines.len() == 0 {
        Some((ShaderStage::Undefined, Seq::<char>::empty(), Seq::<char>::empty()))
    } else {
        match parse_lines(lines.drop_last()) {
            None => None,
            Some(st) => parse_line(st, lines.last()),
        }
    }
}

/// The (vertex text, fragment text) of a combined source, or `None` where a
/// code line comes before any stage directive.
pub open spec fn parse_spec(source: Seq<char>) -> Option<(Seq<char>, Seq<char>)> {
    match parse_lines(split_lines(source)) {
        None => None,
        Some(st) => Some((st.1, st.2)),
    }
}

pub(crate) proof fn lemma_split_lines_len(s: Seq<char>)
    ensures
        split_lines(s).len() >= 1,
    decreases s.len(),
{
    if s.len() > 0 {
        lemma_split_lines_len(s.drop_last());
    }
}

/// Whether `pat` occurs in `chars[start..end]` at position `start + k`.
fn occurs_at_exec(chars: &Vec<char>, start: usize, end: usize, pat: &Vec<char>, k: usize) -> (r: bool)
    requires
        start <= end <= chars@.len(),
        k + pat@.len() <= end - start,
    ensures
        r == occurs_at(chars@.subrange(start as int, end as int), pat@, k as int),
{
    let ghost line = chars@.subrange(start as int, end as int);
    let mut j: usize = 0;
    while j < pat.len()
        invariant
            start <= end <= chars@.len(),
            k + pat@.len() <= end - start,
            j <= pat@.len(),
            line == chars@.subrange(start as int, end as int),
            forall|m: int| 0 <= m < j ==> line[k + m] == pat@[m],
        decreases pat@.len() - j,
    {
        if chars[start + k + j] != pat[j] {
            assert(line.subrange(k as int, k + pat@.len())[j as int] != pat@[j as int]);
            return false;
        }
        j = j + 1;
    }
    assert(line.subrange(k as int, k + pat@.len()) =~= pat@);
    true
}

/// Whether `pat` occurs in `chars[start..end]`.
fn contains_exec(chars: &Vec<char>, start: usize, end: usize, pat: &Vec<char>) -> (r: bool)
    requires
        start <= end <= chars@.len(),
    ensures
        r == contains(chars@.subrange(start as int, end as int), pat@),
{
    let ghost line = chars@.subrange(start as int, end as int);
    if pat.len() > end - start {
        assert forall|k: int| !occurs_at(line, pat@, k) by {}
        return false;
    }
    if pat.len() == 0 {
        assert(line.subrange(0, 0) =~= pat@);
        assert(occurs_at(line, pat@, 0));
        return true;
    }
    let last: usize = end - start - pat.len();
    let mut k: usize = 0;
    while k <= last
        invariant
            start <= end <= chars@.len(),
            last + pat@.len() == end - start,
            pat@.len() > 0,
            line == chars@.subrange(start as int, end as int),
            forall|m: int| 0 <= m < k ==> !occurs_at(line, pat@, m),
        decreases last + 1 - k,
    {
        if occurs_at_exec(chars, start, end, pat, k) {
            return true;
        }
        k = k + 1;
    }
    assert forall|m: int| !occurs_at(line, pat@, m) by {
        if 0 <= m < k {
        }
    }
    false
}

/// Applies one line, `source[start..end]`, to the parse state held in
/// `stage`, `vertex` and `fragment`; `None` where the line is code that comes
/// before any stage directive.
fn parse_line_exec(
    source: &str,
    chars: &Vec<char>,
    start: usize,
    end: usize,
    stage: ShaderStage,
    vertex: &mut String,
    fragment: &mut String,
    vertex_pat: &Vec<char>,
    fragment_pat: &Vec<char>,
) -> (r: Option<ShaderStage>)
    requires
        chars@ == source@,
        start <= end <= chars@.len(),
        vertex_pat@ == vertex_directive(),
        fragment_pat@ == fragment_directive(),
    ensures
        match parse_line((stage, old(vertex)@, old(fragment)@), chars@.subrange(start as int, end as int)) {
            None => r is None,
            Some(st) => r == Some(st.0) && final(vertex)@ == st.1 && final(fragment)@ == st.2,
        },
{
    if start == end {
        return Some(stage);
    }
    if contains_exec(chars, start, end, vertex_pat) {
        return Some(ShaderStage::Vertex);
    }
    if contains_exec(chars, start, end, fragment_pat) {
        return Some(ShaderStage::Fragment);
    }
    proof {
        reveal_strlit("\n");
    }
    let line = source.substring_char(start, end);
    match stage {
        ShaderStage::Undefined => None,
        ShaderStage::Vertex => {
            vertex.append("\n");
            vertex.append(line);
            Some(stage)
        },
        ShaderStage::Fragment => {
            fragment.append("\n");
            fragment.append(line);
            Some(stage)
        },
    }
}

/// Splits a combined shader source into its vertex and fragment texts.
///
/// The source is read line by line: empty lines are skipped, a line that
/// contains `#stage vertex` or `#stage fragment` switches the active stage and
/// is dropped, and every other line is appended, newline-prefixed, to the text
/// of the active stage. A code line before any directive is a parse error.
pub fn parse(source: &str) -> (r: Result<(String, String), ShaderError>)
    ensures
        r is Err <==> parse_spec(source@) is None,
        r matches Err(e) ==> e is Parse,
        r matches Ok((v, f)) ==> parse_spec(source@) == Some((v@, f@)),
{
    let mut chars: Vec<char> = Vec::new();
    for c in it: source.chars()
        invariant
            chars@ == it.seq().take(it.index()),
    {
        chars.push(c);
    }
    assert(chars@ =~= source@);
    let vertex_pat: Vec<char> = vec!['#', 's', 't', 'a', 'g', 'e', ' ', 'v', 'e', 'r', 't', 'e', 'x'];
    let fragment_pat: Vec<char> = vec!['#', 's', 't', 'a', 'g', 'e', ' ', 'f', 'r', 'a', 'g', 'm', 'e', 'n', 't'];
    assert(vertex_pat@ =~= vertex_directive());
    assert(fragment_pat@ =~= fragment_directive());
    let mut vertex = String::new();
    let mut fragment = String::new();
    let mut stage = ShaderStage::Undefined;
    let mut failed = false;
    let mut line_start: usize = 0;
    let mut i: usize = 0;
    assert(chars@.take(0) =~= Seq::<char>::empty());
    assert(split_lines(chars@.take(0)).drop_last() =~= Seq::<Seq<char>>::empty());
    assert(chars@.subrange(0, 0) =~= Seq::<char>::empty());
    while i < chars.len()
        invariant
            chars@ == source@,
            vertex_pat@ == vertex_directive(),
            fragment_pat@ == fragment_directive(),
            line_start <= i <= chars@.len(),
            split_lines(chars@.take(i as int)).last() == chars@.subrange(line_start as int, i as int),
            failed ==> parse_lines(split_lines(chars@.take(i as int)).drop_last()) is None,
            !failed ==> parse_lines(split_lines(chars@.take(i as int)).drop_last()) == Some(
                (stage, vertex@, fragment@),
            ),
        decreases chars@.len() - i,
    {
        let ghost prefix = chars@.take(i as int);
        let ghost lines = split_lines(prefix);
        proof {
            lemma_split_lines_len(prefix);
            assert(chars@.take(i + 1).drop_last() =~= prefix);
        }
        if chars[i] == '\n' {
            if !failed {
                match parse_line_exec(source, &chars, line_start, i, stage, &mut vertex, &mut fragment, &vertex_pat, &fragment_pat) {
                    Some(next) => {
                        stage = next;
                    },
                    None => {
                        failed = true;
                    },
                }
            }
            line_start = i + 1;
            assert(split_lines(chars@.take(i + 1)).drop_last() =~= lines);
            assert(chars@.subrange(i + 1, i + 1) =~= Seq::<char>::empty());
        } else {
            assert(split_lines(chars@.take(i + 1)).drop_last() =~= lines.drop_last());
            assert(chars@.subrange(line_start as int, i + 1) =~= chars@.subrange(line_start as int, i as int).push(chars@[i as int]));
        }
        i = i + 1;
    }
    proof {
        lemma_split_lines_len(chars@);
        assert(chars@.take(chars@.len() as int) =~= chars@);
    }
    if failed {
        return Err(ShaderError::Parse);
    }
    match parse_line_exec(source, &chars, line_start, chars.len(), stage, &mut vertex, &mut fragment, &vertex_pat, &fragment_pat) {
        Some(_) => Ok((vertex, fragment)),
        None => Err(ShaderError::Parse),
    }
}

/// Splits a shader source that was read from a file, given the outcome of
/// the read: a failed read is an I/O error carrying its reason, and is never
/// a parse error.
pub fn parse_read(read: Result<String, String>) -> (r: Result<(String, String), ShaderError>)
    ensures
        read matches Err(reason) ==> (r matches Err(ShaderError::Io(e)) && e@ == reason@),
        read matches Ok(source) ==> {
            &&& r is Err <==> parse_spec(source@) is None
            &&& r matches Err(e) ==> e is Parse
            &&& r matches Ok((v, f)) ==> parse_spec(source@) == Some((v@, f@))
        },
{
    match read {
        Err(reason) => Err(ShaderError::Io(reason)),
        Ok(source) => parse(source.as_str()),
    }
}

} // verus!
