//! What the web pages are shown for a persona.

use crate::text;
use vstd::prelude::*;

verus! {

/// Which persona a page is for.
#[derive(Debug)]
pub enum PersonaScope {
    /// The one that is set.
    Current,
    /// The one of this name.
    Other { persona: String },
}

/// What is answered where a name cannot be a persona's.
pub const INVALID_PERSONA: &'static str = "invalid persona name";

/// Whether a name can be a persona's: it becomes part of a path, so it is short, one level deep,
/// and neither of the names of directories above.
pub open spec fn can_be_persona(name: Seq<char>) -> bool {
    &&& text::bytes_of(name, name.len()) <= 64
    &&& !name.contains('/')
    &&& !name.contains('\\')
    &&& !name.contains('\0')
    &&& name != "."@
    &&& name != ".."@
}

fn holds(cs: &Vec<char>, c: char) -> (r: bool)
    ensures
        r == cs@.contains(c),
{
    let mut i: usize = 0;
    while i < cs.len()
        invariant
            i <= cs@.len(),
            forall|k: int| 0 <= k < i ==> cs@[k] != c,
        decreases cs@.len() - i,
    {
        if cs[i] == c {
            assert(cs@[i as int] == c);
            return true;
        }
        i = i + 1;
    }
    false
}

/// Which persona a page is for: the one that is set where no name is given or its own is, and
/// otherwise the one that is named, if that can be one.
pub fn persona_scoped_config(persona: &str, current_scope: &str) -> (r: Result<
    PersonaScope,
    &'static str,
>)
    ensures
        ({
            let name = text::trimmed(persona@);
            if name.len() == 0 || name == current_scope@ {
                r matches Ok(PersonaScope::Current)
            } else if can_be_persona(name) {
                r matches Ok(PersonaScope::Other { persona: p }) && p@ == name
            } else {
                r matches Err(e) && e@ == INVALID_PERSONA@
            }
        }),
{
    let name = text::trim(persona);
    if name.as_str().is_empty() || text::same(name.as_str(), current_scope) {
        return Ok(PersonaScope::Current);
    }
    let cs = text::chars(name.as_str());
    if text::byte_len(name.as_str()) > 64 || holds(&cs, '/') || holds(&cs, '\\') || holds(
        &cs,
        '\0',
    ) || text::same(name.as_str(), ".") || text::same(name.as_str(), "..") {
        return Err(INVALID_PERSONA);
    }
    Ok(PersonaScope::Other { persona: name })
}

/// A name with a separator in it, or one that leads elsewhere, is no persona's; nor is a longer one
/// than 64 bytes.
pub proof fn lemma_persona(a: Seq<char>, b: Seq<char>)
    ensures
        !can_be_persona(a.push('/') + b),
        !can_be_persona(a.push('\\') + b),
        !can_be_persona(a.push('\0') + b),
        !can_be_persona("."@),
        !can_be_persona(".."@),
        text::bytes_of(a, a.len()) > 64 ==> !can_be_persona(a),
{
    let i = a.len() as int;
    assert((a.push('/') + b)[i] == '/');
    assert((a.push('\\') + b)[i] == '\\');
    assert((a.push('\0') + b)[i] == '\0');
}

/// No name, and the name that is set, stand for what is set; another name stands for itself where it
/// can be a persona's, and is refused where it cannot.
pub proof fn lemma_persona_scope(
    persona: &str,
    current: &str,
    r: Result<PersonaScope, &'static str>,
)
    requires
        call_ensures(persona_scoped_config, (persona, current), r),
    ensures
        r matches Ok(PersonaScope::Current) <==> text::trimmed(persona@).len() == 0
            || text::trimmed(persona@) == current@,
        r matches Ok(PersonaScope::Other { persona: p }) ==> p@ == text::trimmed(persona@)
            && !p@.contains('/') && !p@.contains('\\') && text::bytes_of(p@, p@.len()) <= 64,
        r is Err ==> !can_be_persona(text::trimmed(persona@)),
        text::trimmed(persona@).contains('/') && text::trimmed(persona@) != current@ ==> r is Err,
{
}

/// A name without separators that leads nowhere else is a persona's up to 64 bytes.
pub proof fn lemma_can_be_persona(name: Seq<char>)
    requires
        !name.contains('/'),
        !name.contains('\\'),
        !name.contains('\0'),
        name != "."@,
        name != ".."@,
    ensures
        can_be_persona(name) <==> text::bytes_of(name, name.len()) <= 64,
{
}

}
