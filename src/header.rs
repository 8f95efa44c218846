//! Normalising function declarations read from the native library's header,
//! for the generator of the managed-side callback classes.
//!
//! Each function's name gives the name of its callback director class (the
//! name in camel case, then `Cb`). Its parameters are sorted out: the opaque
//! `void *` user-data parameter becomes a pointer to the director, each
//! callback-pointer parameter becomes a pure virtual method of the director,
//! and the other parameters stay as they are.
use vstd::prelude::*;
use vstd::string::{StrSliceExecFns, StringExecFns};

verus! {

/// A parameter of a declared function.
pub struct Param {
    pub name: String,
    pub param_type: String,
}

/// A function declaration of the header, and what normalising it gives.
pub struct FunctionDecl {
    pub function_name: String,
    pub function_ret: String,
    pub function_params: Vec<Param>,
    pub callback_director: String,
    pub callback_virtuals: Vec<String>,
}

/// How a parameter type is handled.
pub enum ParamKind {
    /// The opaque user-data pointer handed back to callbacks.
    UserData,
    /// A callback pointer; holds the callback's parameters after its
    /// user-data parameter.
    Callback(String),
    /// Any other parameter.
    Plain,
}

/// Why a header could not be processed.
#[derive(Clone, Copy, Debug, PartialEq, Eq, Structural)]
pub enum HeaderError {
    /// A pattern was refused by the regular-expression engine.
    Pattern,
    /// An element held another event than its text.
    UnexpectedEvent,
    /// The events ended inside an element.
    UnexpectedEnd,
}

#[verifier::external_type_specification]
#[verifier::external_body]
pub struct ExRegexError(regex::Error);

/// Whether the regular expression `pattern` matches somewhere in `text`.
pub uninterp spec fn regex_matches(pattern: Seq<char>, text: Seq<char>) -> bool;

/// The text of capture group 1 of the leftmost match of `pattern` in `text`,
/// if there is a match and the group took part in it.
pub uninterp spec fn regex_group1(pattern: Seq<char>, text: Seq<char>) -> Option<Seq<char>>;

/// Relies on `regex::Regex::new`, which compiles `pattern` or reports why it
/// cannot, and `regex::Regex::is_match`, true if and only if the compiled
/// expression matches anywhere in `text`.
#[verifier::external_body]
fn regex_is_match(pattern: &str, text: &str) -> (r: Result<bool, regex::Error>)
    ensures
        r matches Ok(b) ==> b == regex_matches(pattern@, text@),
{
    let re = regex::Regex::new(pattern)?;
    Ok(re.is_match(text))
}

/// Relies on `regex::Regex::new`, as above, and `regex::Regex::captures`
/// with `Captures::get(1)`: the text of group 1 of the leftmost match.
#[verifier::external_body]
fn regex_capture_group1(pattern: &str, text: &str) -> (r: Result<Option<String>, regex::Error>)
    ensures
        r matches Ok(g) ==> match (g, regex_group1(pattern@, text@)) {
            (Some(s), Some(t)) => s@ == t,
            (None, None) => true,
            _ => false,
        },
{
    let re = regex::Regex::new(pattern)?;
    match re.captures(text) {
        Some(caps) => match caps.get(1) {
            Some(m) => Ok(Some(m.as_str().to_string())),
            None => Ok(None),
        },
        None => Ok(None),
    }
}

/// Relies on `String::push`, which appends one character.
#[verifier::external_body]
fn push_char(s: &mut String, c: char)
    ensures
        final(s)@ == old(s)@.push(c),
{
    s.push(c)
}

/// The pattern of the type of the user-data parameter: a `void` pointer.
pub open spec fn user_data_pattern() -> Seq<char> {
    r"^void\s*\*"@
}

/// The pattern of a callback-pointer type; group 1 holds the callback's
/// parameters after its leading user-data parameter.
pub open spec fn callback_pattern() -> Seq<char> {
    r"^void\s*\(\s*\*\s*\)\s*\(void\s*\*\s*\w+,\s*(\w+.+)\)"@
}

/// `k` is how a parameter of type `t` is handled: a user-data pointer first,
/// else a callback pointer, else a plain parameter.
pub open spec fn is_kind_of(k: ParamKind, t: Seq<char>) -> bool {
    if regex_matches(user_data_pattern(), t) {
        k is UserData
    } else {
        match regex_group1(callback_pattern(), t) {
            Some(g) => k matches ParamKind::Callback(s) && s@ == g,
            None => k is Plain,
        }
    }
}

/// Sorts out how a parameter of type `t` is handled.
pub fn classify_param(t: &str) -> (r: Result<ParamKind, HeaderError>)
    ensures
        r matches Ok(k) ==> is_kind_of(k, t@),
        r matches Err(e) ==> e is Pattern,
{
    match regex_is_match(r"^void\s*\*", t) {
        Err(_) => Err(HeaderError::Pattern),
        Ok(true) => Ok(ParamKind::UserData),
        Ok(false) => match regex_capture_group1(
            r"^void\s*\(\s*\*\s*\)\s*\(void\s*\*\s*\w+,\s*(\w+.+)\)",
            t,
        ) {
            Err(_) => Err(HeaderError::Pattern),
            Ok(Some(g)) => Ok(ParamKind::Callback(g)),
            Ok(None) => Ok(ParamKind::Plain),
        },
    }
}

/// `c` in upper case where it is an ASCII lower-case letter.
pub open spec fn upper_ascii(c: char) -> char {
    if 'a' <= c && c <= 'z' {
        ((c as u8) - 32) as char
    } else {
        c
    }
}

fn to_upper_ascii(c: char) -> (r: char)
    ensures
        r == upper_ascii(c),
{
    if 'a' <= c && c <= 'z' {
        ((c as u8) - 32) as char
    } else {
        c
    }
}

/// `s` in camel case: underscores dropped, and the character after them
/// upper-cased, as is the first character when `up` holds.
pub open spec fn camel_from(s: Seq<char>, up: bool) -> Seq<char>
    decreases s.len(),
{
    if s.len() == 0 {
        Seq::empty()
    } else if s[0] == '_' {
        camel_from(s.drop_first(), true)
    } else {
        seq![if up { upper_ascii(s[0]) } else { s[0] }] + camel_from(s.drop_first(), false)
    }
}

/// The name of the callback director class of the function `name`.
pub open spec fn director_name(name: Seq<char>) -> Seq<char> {
    camel_from(name, true) + "Cb"@
}

/// The name of the callback director class of the function `name`.
pub fn director_for(name: &str) -> (r: String)
    ensures
        r@ == director_name(name@),
{
    let n = name.unicode_len();
    let mut r = String::new();
    let mut up = true;
    let mut i: usize = 0;
    assert(name@.skip(0) =~= name@);
    while i < n
        invariant
            n == name@.len(),
            i <= n,
            r@ + camel_from(name@.skip(i as int), up) == camel_from(name@, true),
        decreases n - i,
    {
        let c = name.get_char(i);
        assert(name@.skip(i as int).drop_first() =~= name@.skip(i + 1));
        if c == '_' {
            up = true;
        } else {
            let d = if up { to_upper_ascii(c) } else { c };
            let ghost before = r@;
            push_char(&mut r, d);
            assert(before + camel_from(name@.skip(i as int), up) =~= r@ + camel_from(name@.skip(i + 1), false));
            up = false;
        }
        i += 1;
    }
    assert(name@.skip(n as int) =~= Seq::<char>::empty());
    r.append("Cb");
    r
}

/// The declaration of the pure virtual method for the callback parameter
/// `name` whose own parameters are `params`.
pub open spec fn virtual_decl(name: Seq<char>, params: Seq<char>) -> Seq<char> {
    "virtual void "@ + name + "("@ + params + ") = 0;"@
}

/// The parameters, by name and type, that remain of `ps` handled as `ks`.
pub open spec fn kept_params(ps: Seq<Param>, ks: Seq<ParamKind>, director: Seq<char>) -> Seq<(Seq<char>, Seq<char>)>
    decreases ps.len(),
{
    if ps.len() == 0 || ks.len() == 0 {
        Seq::empty()
    } else {
        let rest = kept_params(ps.drop_last(), ks.drop_last(), director);
        match ks.last() {
            ParamKind::UserData => rest.push(("obj"@, director + " *"@)),
            ParamKind::Callback(_) => rest,
            ParamKind::Plain => rest.push((ps.last().name@, ps.last().param_type@)),
        }
    }
}

/// The virtual method declarations given by the callback parameters of `ps`.
pub open spec fn virtuals_of(ps: Seq<Param>, ks: Seq<ParamKind>) -> Seq<Seq<char>>
    decreases ps.len(),
{
    if ps.len() == 0 || ks.len() == 0 {
        Seq::empty()
    } else {
        let rest = virtuals_of(ps.drop_last(), ks.drop_last());
        match ks.last() {
            ParamKind::Callback(g) => rest.push(virtual_decl(ps.last().name@, g@)),
            _ => rest,
        }
    }
}

/// The parameters of `ps` by name and type.
pub open spec fn param_views(ps: Seq<Param>) -> Seq<(Seq<char>, Seq<char>)> {
    ps.map_values(|p: Param| (p.name@, p.param_type@))
}

/// The views of the strings `vs`.
pub open spec fn string_views(vs: Seq<String>) -> Seq<Seq<char>> {
    vs.map_values(|v: String| v@)
}

fn copy_string(s: &String) -> (r: String)
    ensures
        r@ == s@,
{
    String::from_str(s.as_str())
}

/// Normalises `res` with its parameters handled as `kinds` says, one kind per
/// parameter: the director name is set, the parameters are replaced by those
/// that remain, and a virtual method is added for each callback parameter.
pub fn normalise_with(res: &mut FunctionDecl, kinds: &[ParamKind])
    requires
        kinds@.len() == old(res).function_params@.len(),
    ensures
        normalised_with(*old(res), kinds@, *final(res)),
{
    let ghost ps = res.function_params@;
    let ghost vs0 = res.callback_virtuals@;
    let director = director_for(res.function_name.as_str());
    res.callback_director = director;
    let mut params: Vec<Param> = Vec::new();
    std::mem::swap(&mut params, &mut res.function_params);
    let mut kept: Vec<Param> = Vec::new();
    let mut i: usize = 0;
    while i < params.len()
        invariant
            params@ == ps,
            res.function_name == old(res).function_name,
            res.function_ret == old(res).function_ret,
            kinds@.len() == ps.len(),
            i <= ps.len(),
            res.callback_director@ == director_name(res.function_name@),
            param_views(kept@) == kept_params(ps.take(i as int), kinds@.take(i as int), res.callback_director@),
            string_views(res.callback_virtuals@) == string_views(vs0) + virtuals_of(ps.take(i as int), kinds@.take(i as int)),
        decreases ps.len() - i,
    {
        assert(ps.take(i + 1).drop_last() =~= ps.take(i as int));
        assert(kinds@.take(i + 1).drop_last() =~= kinds@.take(i as int));
        let p = &params[i];
        match &kinds[i] {
            ParamKind::UserData => {
                let mut t = copy_string(&res.callback_director);
                t.append(" *");
                let ghost before = kept@;
                kept.push(Param { name: String::from_str("obj"), param_type: t });
                assert(param_views(kept@) =~= param_views(before).push(("obj"@, res.callback_director@ + " *"@)));
                assert(string_views(res.callback_virtuals@) =~= string_views(vs0) + virtuals_of(ps.take(i + 1), kinds@.take(i + 1)));
            },
            ParamKind::Callback(g) => {
                let mut v = String::from_str("virtual void ");
                v.append(p.name.as_str());
                v.append("(");
                v.append(g.as_str());
                v.append(") = 0;");
                let ghost before = res.callback_virtuals@;
                res.callback_virtuals.push(v);
                assert(string_views(res.callback_virtuals@) =~= string_views(before).push(v@));
                assert(string_views(res.callback_virtuals@) =~= string_views(vs0) + virtuals_of(ps.take(i + 1), kinds@.take(i + 1)));
            },
            ParamKind::Plain => {
                let ghost before = kept@;
                kept.push(Param { name: copy_string(&p.name), param_type: copy_string(&p.param_type) });
                assert(param_views(kept@) =~= param_views(before).push((p.name@, p.param_type@)));
                assert(string_views(res.callback_virtuals@) =~= string_views(vs0) + virtuals_of(ps.take(i + 1), kinds@.take(i + 1)));
            },
        }
        i += 1;
    }
    assert(ps.take(ps.len() as int) =~= ps);
    assert(kinds@.take(ps.len() as int) =~= kinds@);
    res.function_params = kept;
}

/// `ks` says, for each parameter of `ps`, how it is handled.
pub open spec fn kinds_of(ps: Seq<Param>, ks: Seq<ParamKind>) -> bool {
    &&& ks.len() == ps.len()
    &&& forall|i: int| 0 <= i < ps.len() ==> is_kind_of(#[trigger] ks[i], ps[i].param_type@)
}

/// `n` is `d` normalised with its parameters handled as `ks` says.
pub open spec fn normalised_with(d: FunctionDecl, ks: Seq<ParamKind>, n: FunctionDecl) -> bool {
    &&& n.function_name == d.function_name
    &&& n.function_ret == d.function_ret
    &&& n.callback_director@ == director_name(d.function_name@)
    &&& param_views(n.function_params@) == kept_params(
        d.function_params@,
        ks,
        director_name(d.function_name@),
    )
    &&& string_views(n.callback_virtuals@) == string_views(d.callback_virtuals@) + virtuals_of(
        d.function_params@,
        ks,
    )
}

/// `n` is `d` normalised, each parameter handled as its type says.
pub open spec fn normalises_to(d: FunctionDecl, n: FunctionDecl) -> bool {
    exists|ks: Seq<ParamKind>| kinds_of(d.function_params@, ks) && normalised_with(d, ks, n)
}

/// Normalises `res`: each parameter is sorted out by its type, then
/// [`normalise_with`] applies. On an error `res` is left as it was.
pub fn normalise(res: &mut FunctionDecl) -> (r: Result<(), HeaderError>)
    ensures
        r is Ok ==> normalises_to(*old(res), *final(res)),
        r matches Err(e) ==> e is Pattern && *final(res) == *old(res),
{
    let mut kinds: Vec<ParamKind> = Vec::with_capacity(res.function_params.len());
    let mut i: usize = 0;
    while i < res.function_params.len()
        invariant
            i <= res.function_params@.len(),
            kinds@.len() == i,
            forall|j: int| 0 <= j < i ==> is_kind_of(#[trigger] kinds@[j], res.function_params@[j].param_type@),
        decreases res.function_params@.len() - i,
    {
        match classify_param(res.function_params[i].param_type.as_str()) {
            Ok(k) => kinds.push(k),
            Err(e) => return Err(e),
        }
        i += 1;
    }
    normalise_with(res, kinds.as_slice());
    assert(kinds_of(old(res).function_params@, kinds@));
    Ok(())
}

/// An attribute of an element, by local name.
pub struct Attribute {
    pub local_name: String,
    pub value: String,
}

/// An event of the header's XML description, as the reader delivers it.
pub enum HeaderEvent {
    StartElement { local_name: String, attributes: Vec<Attribute> },
    EndElement { local_name: String },
    Characters(String),
    Whitespace(String),
    EndDocument,
    /// Any other event: a comment, a processing instruction, and so on.
    Other,
}

/// A declaration as read: return type, name, and parameters by name and type.
pub type RawDecl = (Seq<char>, Seq<char>, Seq<(Seq<char>, Seq<char>)>);

/// The text that follows an element start at `pos`: the element's text at
/// `pos`, and the position after it.
pub open spec fn text_at(ev: Seq<HeaderEvent>, pos: int) -> Result<(int, Seq<char>), HeaderError> {
    if pos >= ev.len() {
        Err(HeaderError::UnexpectedEnd)
    } else {
        match ev[pos] {
            HeaderEvent::Characters(v) => Ok((pos + 1, v@)),
            _ => Err(HeaderError::UnexpectedEvent),
        }
    }
}

/// Reading a `param` element from `pos` on, with `name` and `ty` read so
/// far: the position after its end and the parameter's name and type.
pub open spec fn scan_param(ev: Seq<HeaderEvent>, pos: int, name: Seq<char>, ty: Seq<char>) -> Result<
    (int, Seq<char>, Seq<char>),
    HeaderError,
>
    decreases ev.len() - pos,
{
    if pos < 0 || pos >= ev.len() {
        Err(HeaderError::UnexpectedEnd)
    } else {
        match ev[pos] {
            HeaderEvent::StartElement { local_name, .. } => if pos + 1 >= ev.len() {
                Err(HeaderError::UnexpectedEnd)
            } else if local_name@ == "type"@ {
                match text_at(ev, pos + 1) {
                    Ok((p, v)) => scan_param(ev, pos + 2, name, v),
                    Err(e) => Err(e),
                }
            } else if local_name@ == "declname"@ {
                match text_at(ev, pos + 1) {
                    Ok((p, v)) => scan_param(ev, pos + 2, v, ty),
                    Err(e) => Err(e),
                }
            } else {
                scan_param(ev, pos + 2, name, ty)
            },
            HeaderEvent::EndElement { local_name } => if local_name@ == "param"@ {
                Ok((pos + 1, name, ty))
            } else {
                scan_param(ev, pos + 1, name, ty)
            },
            HeaderEvent::Whitespace(_) => scan_param(ev, pos + 1, name, ty),
            _ => Err(HeaderError::UnexpectedEvent),
        }
    }
}

fn is_named(s: &String, name: &str) -> (r: bool)
    ensures
        r == (s@ == name@),
{
    let n = String::from_str(name);
    *s == n
}

/// Reads the text of the element that starts before `pos` into `out`.
fn read_text(events: &[HeaderEvent], pos: usize, out: &mut String) -> (r: Result<usize, HeaderError>)
    ensures
        r matches Ok(p) ==> text_at(events@, pos as int) == Ok::<(int, Seq<char>), HeaderError>(
            (p as int, final(out)@),
        ),
        r matches Err(e) ==> text_at(events@, pos as int) == Err::<(int, Seq<char>), HeaderError>(
            e,
        ) && *final(out) == *old(out),
{
    if pos >= events.len() {
        return Err(HeaderError::UnexpectedEnd);
    }
    match &events[pos] {
        HeaderEvent::Characters(v) => {
            *out = copy_string(v);
            Ok(pos + 1)
        },
        _ => Err(HeaderError::UnexpectedEvent),
    }
}

/// Reads the return type of a declaration, the text at `pos`.
pub fn handle_type(events: &[HeaderEvent], pos: usize, res: &mut FunctionDecl) -> (r: Result<usize, HeaderError>)
    ensures
        r matches Ok(p) ==> text_at(events@, pos as int) == Ok::<(int, Seq<char>), HeaderError>(
            (p as int, final(res).function_ret@),
        ),
        r matches Err(e) ==> text_at(events@, pos as int) == Err::<(int, Seq<char>), HeaderError>(
            e,
        ),
        final(res).function_name == old(res).function_name,
        final(res).function_params == old(res).function_params,
        final(res).callback_director == old(res).callback_director,
        final(res).callback_virtuals == old(res).callback_virtuals,
        r is Err ==> *final(res) == *old(res),
{
    read_text(events, pos, &mut res.function_ret)
}

/// Reads the name of a declaration, the text at `pos`.
pub fn handle_name(events: &[HeaderEvent], pos: usize, res: &mut FunctionDecl) -> (r: Result<usize, HeaderError>)
    ensures
        r matches Ok(p) ==> text_at(events@, pos as int) == Ok::<(int, Seq<char>), HeaderError>(
            (p as int, final(res).function_name@),
        ),
        r matches Err(e) ==> text_at(events@, pos as int) == Err::<(int, Seq<char>), HeaderError>(
            e,
        ),
        final(res).function_ret == old(res).function_ret,
        final(res).function_params == old(res).function_params,
        final(res).callback_director == old(res).callback_director,
        final(res).callback_virtuals == old(res).callback_virtuals,
        r is Err ==> *final(res) == *old(res),
{
    read_text(events, pos, &mut res.function_name)
}

/// Reads a `param` element from `pos` on and appends the parameter to those
/// of `res`; gives the position after the element's end.
pub fn handle_param(events: &[HeaderEvent], pos: usize, res: &mut FunctionDecl) -> (r: Result<usize, HeaderError>)
    ensures
        match scan_param(events@, pos as int, Seq::empty(), Seq::empty()) {
            Ok((p, name, ty)) => r == Ok::<usize, HeaderError>(p as usize)
                && param_views(final(res).function_params@) == param_views(old(res).function_params@).push((name, ty)),
            Err(e) => r == Err::<usize, HeaderError>(e)
                && final(res).function_params == old(res).function_params,
        },
        final(res).function_name == old(res).function_name,
        final(res).function_ret == old(res).function_ret,
        final(res).callback_director == old(res).callback_director,
        final(res).callback_virtuals == old(res).callback_virtuals,
{
    let ghost goal = scan_param(events@, pos as int, Seq::empty(), Seq::empty());
    let mut param = Param { name: String::new(), param_type: String::new() };
    let mut i = pos;
    loop
        invariant
            goal == scan_param(events@, pos as int, Seq::empty(), Seq::empty()),
            scan_param(events@, i as int, param.name@, param.param_type@) == goal,
            *res == *old(res),
        decreases events@.len() - i,
    {
        if i >= events.len() {
            return Err(HeaderError::UnexpectedEnd);
        }
        match &events[i] {
            HeaderEvent::StartElement { local_name, .. } => {
                if i + 1 >= events.len() {
                    return Err(HeaderError::UnexpectedEnd);
                }
                if is_named(local_name, "type") {
                    match read_text(events, i + 1, &mut param.param_type) {
                        Ok(_) => {},
                        Err(e) => return Err(e),
                    }
                } else if is_named(local_name, "declname") {
                    match read_text(events, i + 1, &mut param.name) {
                        Ok(_) => {},
                        Err(e) => return Err(e),
                    }
                }
                i = i + 2;
            },
            HeaderEvent::EndElement { local_name } => {
                if is_named(local_name, "param") {
                    let ghost before = res.function_params@;
                    res.function_params.push(param);
                    assert(param_views(res.function_params@) =~= param_views(before).push((param.name@, param.param_type@)));
                    return Ok(i + 1);
                }
                i = i + 1;
            },
            HeaderEvent::Whitespace(_) => {
                i = i + 1;
            },
            _ => {
                return Err(HeaderError::UnexpectedEvent);
            },
        }
    }
}

/// The declaration `d` as read, before normalising.
pub open spec fn raw_view(d: FunctionDecl) -> RawDecl {
    (d.function_ret@, d.function_name@, param_views(d.function_params@))
}

proof fn lemma_scan_param_advances(ev: Seq<HeaderEvent>, pos: int, name: Seq<char>, ty: Seq<char>)
    ensures
        scan_param(ev, pos, name, ty) matches Ok((p, _, _)) ==> pos < p <= ev.len(),
    decreases ev.len() - pos,
{
    if 0 <= pos < ev.len() {
        match ev[pos] {
            HeaderEvent::StartElement { local_name, .. } => {
                if pos + 1 < ev.len() {
                    if local_name@ == "type"@ {
                        if let Ok((_, v)) = text_at(ev, pos + 1) {
                            lemma_scan_param_advances(ev, pos + 2, name, v);
                        }
                    } else if local_name@ == "declname"@ {
                        if let Ok((_, v)) = text_at(ev, pos + 1) {
                            lemma_scan_param_advances(ev, pos + 2, v, ty);
                        }
                    } else {
                        lemma_scan_param_advances(ev, pos + 2, name, ty);
                    }
                }
            },
            HeaderEvent::EndElement { .. } => lemma_scan_param_advances(ev, pos + 1, name, ty),
            HeaderEvent::Whitespace(_) => lemma_scan_param_advances(ev, pos + 1, name, ty),
            _ => {},
        }
    }
}

/// Reading a `memberdef` element from `pos` on, with `d` read so far: the
/// position after its end and the declaration. The return type, name and
/// parameters are read from their elements; other content is skipped.
pub open spec fn scan_member(ev: Seq<HeaderEvent>, pos: int, d: RawDecl) -> Result<(int, RawDecl), HeaderError>
    decreases ev.len() - pos,
{
    if pos < 0 || pos >= ev.len() {
        Err(HeaderError::UnexpectedEnd)
    } else {
        match ev[pos] {
            HeaderEvent::StartElement { local_name, .. } => if local_name@ == "type"@ {
                match text_at(ev, pos + 1) {
                    Ok((_, v)) => scan_member(ev, pos + 2, (v, d.1, d.2)),
                    Err(e) => Err(e),
                }
            } else if local_name@ == "name"@ {
                match text_at(ev, pos + 1) {
                    Ok((_, v)) => scan_member(ev, pos + 2, (d.0, v, d.2)),
                    Err(e) => Err(e),
                }
            } else if local_name@ == "param"@ {
                match scan_param(ev, pos + 1, Seq::empty(), Seq::empty()) {
                    Ok((p, name, ty)) => if !(pos < p <= ev.len()) {
                        Err(HeaderError::UnexpectedEnd)
                    } else {
                        scan_member(ev, p, (d.0, d.1, d.2.push((name, ty))))
                    },
                    Err(e) => Err(e),
                }
            } else {
                scan_member(ev, pos + 1, d)
            },
            HeaderEvent::EndElement { local_name } => if local_name@ == "memberdef"@ {
                Ok((pos + 1, d))
            } else {
                scan_member(ev, pos + 1, d)
            },
            _ => scan_member(ev, pos + 1, d),
        }
    }
}

/// The attributes of a `memberdef` element mark a function: the first
/// `kind` attribute says `function`.
pub open spec fn is_function_member(attrs: Seq<Attribute>) -> bool {
    exists|i: int|
        0 <= i < attrs.len() && #[trigger] attrs[i].local_name@ == "kind"@ && attrs[i].value@
            == "function"@ && forall|j: int| 0 <= j < i ==> attrs[j].local_name@ != "kind"@
}

/// The function declarations of the document from `pos` on, in order, up to
/// the end of the document.
pub open spec fn scan_document(ev: Seq<HeaderEvent>, pos: int) -> Result<Seq<RawDecl>, HeaderError>
    decreases ev.len() - pos,
{
    if pos < 0 || pos >= ev.len() {
        Err(HeaderError::UnexpectedEnd)
    } else {
        match ev[pos] {
            HeaderEvent::StartElement { local_name, attributes } => if local_name@ == "memberdef"@
                && is_function_member(attributes@) {
                match scan_member(ev, pos + 1, (Seq::empty(), Seq::empty(), Seq::empty())) {
                    Ok((p, d)) => if !(pos < p <= ev.len()) {
                        Err(HeaderError::UnexpectedEnd)
                    } else {
                        match scan_document(ev, p) {
                            Ok(ds) => Ok(seq![d] + ds),
                            Err(e) => Err(e),
                        }
                    },
                    Err(e) => Err(e),
                }
            } else {
                scan_document(ev, pos + 1)
            },
            HeaderEvent::EndDocument => Ok(Seq::empty()),
            _ => scan_document(ev, pos + 1),
        }
    }
}

/// Whether the attributes `attrs` of a `memberdef` element mark a function.
pub fn is_function(attrs: &[Attribute]) -> (r: bool)
    ensures
        r == is_function_member(attrs@),
{
    let mut i: usize = 0;
    while i < attrs.len()
        invariant
            i <= attrs@.len(),
            forall|j: int| 0 <= j < i ==> attrs@[j].local_name@ != "kind"@,
        decreases attrs@.len() - i,
    {
        if is_named(&attrs[i].local_name, "kind") {
            let r = is_named(&attrs[i].value, "function");
            if !r {
                assert forall|k: int|
                    0 <= k < attrs@.len() && #[trigger] attrs@[k].local_name@ == "kind"@ && attrs@[k].value@
                        == "function"@ implies !(forall|j: int| 0 <= j < k ==> attrs@[j].local_name@ != "kind"@) by {
                    assert(k != i);
                    if k > i {
                        assert(attrs@[i as int].local_name@ == "kind"@);
                    }
                }
            }
            return r;
        }
        i += 1;
    }
    false
}

/// Reads the `memberdef` element from `pos` on: the position after its end
/// and the declaration it gives.
pub fn handle_member(events: &[HeaderEvent], pos: usize) -> (r: Result<(usize, FunctionDecl), HeaderError>)
    ensures
        match scan_member(events@, pos as int, (Seq::empty(), Seq::empty(), Seq::empty())) {
            Ok((p, d)) => r matches Ok((q, decl)) && q == p && raw_view(decl) == d
                && decl.callback_director@.len() == 0 && decl.callback_virtuals@.len() == 0,
            Err(e) => r == Err::<(usize, FunctionDecl), HeaderError>(e),
        },
{
    let ghost goal = scan_member(events@, pos as int, (Seq::empty(), Seq::empty(), Seq::empty()));
    let mut res = FunctionDecl {
        function_name: String::new(),
        function_ret: String::new(),
        function_params: Vec::new(),
        callback_director: String::new(),
        callback_virtuals: Vec::new(),
    };
    assert(param_views(res.function_params@) =~= Seq::empty());
    let mut i = pos;
    loop
        invariant
            goal == scan_member(events@, pos as int, (Seq::empty(), Seq::empty(), Seq::empty())),
            scan_member(events@, i as int, raw_view(res)) == goal,
            res.callback_director@.len() == 0,
            res.callback_virtuals@.len() == 0,
        decreases events@.len() - i,
    {
        if i >= events.len() {
            return Err(HeaderError::UnexpectedEnd);
        }
        match &events[i] {
            HeaderEvent::StartElement { local_name, .. } => {
                if is_named(local_name, "type") {
                    match handle_type(events, i + 1, &mut res) {
                        Ok(p) => i = p,
                        Err(e) => return Err(e),
                    }
                } else if is_named(local_name, "name") {
                    match handle_name(events, i + 1, &mut res) {
                        Ok(p) => i = p,
                        Err(e) => return Err(e),
                    }
                } else if is_named(local_name, "param") {
                    proof {
                        lemma_scan_param_advances(events@, i + 1, Seq::empty(), Seq::empty());
                    }
                    match handle_param(events, i + 1, &mut res) {
                        Ok(p) => i = p,
                        Err(e) => return Err(e),
                    }
                } else {
                    i = i + 1;
                }
            },
            HeaderEvent::EndElement { local_name } => {
                if is_named(local_name, "memberdef") {
                    return Ok((i + 1, res));
                }
                i = i + 1;
            },
            _ => {
                i = i + 1;
            },
        }
    }
}

/// Reads the function declarations of the header's XML description, in
/// order, up to the end of the document. They are not normalised yet.
pub fn parse_header(events: &[HeaderEvent]) -> (r: Result<Vec<FunctionDecl>, HeaderError>)
    ensures
        match scan_document(events@, 0) {
            Ok(ds) => r matches Ok(v) && v@.map_values(|d: FunctionDecl| raw_view(d)) == ds
                && forall|i: int| 0 <= i < v@.len() ==> (#[trigger] v@[i]).callback_director@.len() == 0
                    && v@[i].callback_virtuals@.len() == 0,
            Err(e) => r == Err::<Vec<FunctionDecl>, HeaderError>(e),
        },
{
    let ghost goal = scan_document(events@, 0);
    let mut out: Vec<FunctionDecl> = Vec::new();
    let mut i: usize = 0;
    loop
        invariant
            goal == scan_document(events@, 0),
            goal == match scan_document(events@, i as int) {
                Ok(ds) => Ok(out@.map_values(|d: FunctionDecl| raw_view(d)) + ds),
                Err(e) => Err(e),
            },
            forall|k: int| 0 <= k < out@.len() ==> (#[trigger] out@[k]).callback_director@.len() == 0
                && out@[k].callback_virtuals@.len() == 0,
        decreases events@.len() - i,
    {
        if i >= events.len() {
            return Err(HeaderError::UnexpectedEnd);
        }
        match &events[i] {
            HeaderEvent::StartElement { local_name, attributes } => {
                if is_named(local_name, "memberdef") && is_function(attributes.as_slice()) {
                    match handle_member(events, i + 1) {
                        Ok((p, d)) => {
                            let ghost before = out@;
                            proof {
                                lemma_scan_member_advances(events@, i + 1, (Seq::empty(), Seq::empty(), Seq::empty()));
                                if let Ok(ds) = scan_document(events@, p as int) {
                                    assert(before.map_values(|d: FunctionDecl| raw_view(d)) + (seq![raw_view(d)] + ds)
                                        =~= before.push(d).map_values(|d: FunctionDecl| raw_view(d)) + ds);
                                }
                            }
                            out.push(d);
                            i = p;
                        },
                        Err(e) => return Err(e),
                    }
                } else {
                    i = i + 1;
                }
            },
            HeaderEvent::EndDocument => {
                assert(out@.map_values(|d: FunctionDecl| raw_view(d)) + Seq::empty() =~= out@.map_values(|d: FunctionDecl| raw_view(d)));
                return Ok(out);
            },
            _ => {
                i = i + 1;
            },
        }
    }
}

proof fn lemma_scan_member_advances(ev: Seq<HeaderEvent>, pos: int, d: RawDecl)
    ensures
        scan_member(ev, pos, d) matches Ok((p, _)) ==> pos < p <= ev.len(),
    decreases ev.len() - pos,
{
    if 0 <= pos < ev.len() {
        match ev[pos] {
            HeaderEvent::StartElement { local_name, .. } => {
                if local_name@ == "type"@ {
                    if let Ok((_, v)) = text_at(ev, pos + 1) {
                        lemma_scan_member_advances(ev, pos + 2, (v, d.1, d.2));
                    }
                } else if local_name@ == "name"@ {
                    if let Ok((_, v)) = text_at(ev, pos + 1) {
                        lemma_scan_member_advances(ev, pos + 2, (d.0, v, d.2));
                    }
                } else if local_name@ == "param"@ {
                    if let Ok((p, name, ty)) = scan_param(ev, pos + 1, Seq::empty(), Seq::empty()) {
                        if pos < p <= ev.len() {
                            lemma_scan_member_advances(ev, p, (d.0, d.1, d.2.push((name, ty))));
                        }
                    }
                } else {
                    lemma_scan_member_advances(ev, pos + 1, d);
                }
            },
            _ => lemma_scan_member_advances(ev, pos + 1, d),
        }
    }
}

/// Normalises every declaration of `decls`, in order. On an error the
/// declarations before the failing one are normalised and the others are
/// left as they were.
pub fn normalise_all(decls: &mut Vec<FunctionDecl>) -> (r: Result<(), HeaderError>)
    ensures
        final(decls)@.len() == old(decls)@.len(),
        r is Ok ==> forall|i: int|
            0 <= i < old(decls)@.len() ==> normalises_to(#[trigger] old(decls)@[i], final(decls)@[i]),
        r matches Err(e) ==> e is Pattern,
{
    let ghost orig = decls@;
    let mut i: usize = 0;
    while i < decls.len()
        invariant
            orig == old(decls)@,
            decls@.len() == orig.len(),
            i <= orig.len(),
            forall|j: int| i <= j < orig.len() ==> decls@[j] == orig[j],
            forall|j: int| 0 <= j < i ==> normalises_to(#[trigger] orig[j], decls@[j]),
        decreases orig.len() - i,
    {
        let ghost cur = decls@;
        let mut d = decls.remove(i);
        let r = normalise(&mut d);
        decls.insert(i, d);
        assert(decls@ =~= cur.update(i as int, d));
        if r.is_err() {
            return r;
        }
        i += 1;
    }
    Ok(())
}

} // verus!
