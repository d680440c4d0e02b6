use vstd::prelude::*;
use vstd::string::*;

use crate::console::{color_params, text, Color, SimpleColor, Text, TextView};

verus! {

pub const GL_FRAGMENT_SHADER: u32 = 0x8B30;
pub const GL_VERTEX_SHADER: u32 = 0x8B31;

pub const GL_DEBUG_TYPE_ERROR: u32 = 0x824C;
pub const GL_DEBUG_TYPE_DEPRECATED_BEHAVIOR: u32 = 0x824D;
pub const GL_DEBUG_TYPE_UNDEFINED_BEHAVIOR: u32 = 0x824E;
pub const GL_DEBUG_TYPE_PORTABILITY: u32 = 0x824F;
pub const GL_DEBUG_TYPE_PERFORMANCE: u32 = 0x8250;
pub const GL_DEBUG_TYPE_OTHER: u32 = 0x8251;

pub const GL_DEBUG_SEVERITY_HIGH: u32 = 0x9146;
pub const GL_DEBUG_SEVERITY_MEDIUM: u32 = 0x9147;
pub const GL_DEBUG_SEVERITY_LOW: u32 = 0x9148;
pub const GL_DEBUG_SEVERITY_NOTIFICATION: u32 = 0x826B;

/// The name of a shader stage.
pub open spec fn shader_type_name(type_: u32) -> Seq<char> {
    if type_ == GL_VERTEX_SHADER {
        "vertex"@
    } else {
        "fragment"@
    }
}

pub fn shader_type_to_str(type_: u32) -> (r: &'static str)
    requires
        type_ == GL_VERTEX_SHADER || type_ == GL_FRAGMENT_SHADER,
    ensures
        r@ == shader_type_name(type_),
{
    if type_ == GL_VERTEX_SHADER {
        "vertex"
    } else {
        "fragment"
    }
}

/// `type_` is one of the debug message types that have a name here.
pub open spec fn is_named_debug_type(type_: u32) -> bool {
    GL_DEBUG_TYPE_ERROR <= type_ <= GL_DEBUG_TYPE_OTHER
}

/// The name of a debug message type.
pub open spec fn debug_type_name(type_: u32) -> Seq<char> {
    if type_ == GL_DEBUG_TYPE_ERROR {
        "ERROR"@
    } else if type_ == GL_DEBUG_TYPE_DEPRECATED_BEHAVIOR {
        "DEPRECATED BEHAVIOR"@
    } else if type_ == GL_DEBUG_TYPE_UNDEFINED_BEHAVIOR {
        "UNDEFINED BEHAVIOR"@
    } else if type_ == GL_DEBUG_TYPE_PORTABILITY {
        "PORTABILITY"@
    } else if type_ == GL_DEBUG_TYPE_PERFORMANCE {
        "PERFORMANCE"@
    } else {
        "OTHER"@
    }
}

pub fn debug_type_to_str(type_: u32) -> (r: &'static str)
    requires
        is_named_debug_type(type_),
    ensures
        r@ == debug_type_name(type_),
{
    if type_ == GL_DEBUG_TYPE_ERROR {
        "ERROR"
    } else if type_ == GL_DEBUG_TYPE_DEPRECATED_BEHAVIOR {
        "DEPRECATED BEHAVIOR"
    } else if type_ == GL_DEBUG_TYPE_UNDEFINED_BEHAVIOR {
        "UNDEFINED BEHAVIOR"
    } else if type_ == GL_DEBUG_TYPE_PORTABILITY {
        "PORTABILITY"
    } else if type_ == GL_DEBUG_TYPE_PERFORMANCE {
        "PERFORMANCE"
    } else {
        "OTHER"
    }
}

/// `severity` is one of the four debug message severities.
pub open spec fn is_debug_severity(severity: u32) -> bool {
    ||| severity == GL_DEBUG_SEVERITY_HIGH
    ||| severity == GL_DEBUG_SEVERITY_MEDIUM
    ||| severity == GL_DEBUG_SEVERITY_LOW
    ||| severity == GL_DEBUG_SEVERITY_NOTIFICATION
}

/// The color a debug message of the given severity is shown in.
pub open spec fn severity_color(severity: u32) -> SimpleColor {
    if severity == GL_DEBUG_SEVERITY_HIGH {
        SimpleColor::Red
    } else if severity == GL_DEBUG_SEVERITY_MEDIUM {
        SimpleColor::Yellow
    } else {
        SimpleColor::White
    }
}

pub fn severity_to_color(severity: u32) -> (r: SimpleColor)
    requires
        is_debug_severity(severity),
    ensures
        r == severity_color(severity),
{
    if severity == GL_DEBUG_SEVERITY_HIGH {
        SimpleColor::Red
    } else if severity == GL_DEBUG_SEVERITY_MEDIUM {
        SimpleColor::Yellow
    } else {
        SimpleColor::White
    }
}

/// The line a debug message is reported with.
pub open spec fn debug_message_line(type_: u32, message: Seq<char>) -> Seq<char> {
    "OpenGL message ["@ + debug_type_name(type_) + "]: "@ + message
}

/// The console text that reports an OpenGL debug message, or `None` for a
/// mere notification, which is not reported.
pub fn debug_message_text(type_: u32, severity: u32, message: &str) -> (r: Option<Text>)
    requires
        is_named_debug_type(type_),
        is_debug_severity(severity),
        message@.len() == 0 || message@.last() != '\n',
    ensures
        severity == GL_DEBUG_SEVERITY_NOTIFICATION <==> r is None,
        r is Some ==> r->Some_0@ == (TextView {
            message: debug_message_line(type_, message@),
            sequences: seq![color_params(Color::Simple(severity_color(severity)), false)],
        }),
{
    if severity == GL_DEBUG_SEVERITY_NOTIFICATION {
        return None;
    }
    let color = severity_to_color(severity);
    let mut line = String::from_str("OpenGL message [");
    line.append(debug_type_to_str(type_));
    line.append("]: ");
    line.append(message);
    assert(line@ =~= debug_message_line(type_, message@));
    proof {
        reveal_strlit("]: ");
    }
    let t = text(line).foreground(Color::Simple(color));
    assert(t@.sequences =~= seq![color_params(Color::Simple(severity_color(severity)), false)]);
    Some(t)
}

/// The pieces of `s` between its spaces, as `str::split(' ')` yields them:
/// a string with `k` spaces has `k + 1` pieces, some of them maybe empty.
pub open spec fn split_at_spaces(s: Seq<char>) -> Seq<Seq<char>>
    decreases s.len(),
{
    if s.len() == 0 {
        seq![Seq::empty()]
    } else {
        let init = split_at_spaces(s.drop_last());
        if s.last() == ' ' {
            init.push(Seq::empty())
        } else {
            init.update(init.len() - 1, init.last().push(s.last()))
        }
    }
}

proof fn lemma_split_len(s: Seq<char>)
    ensures
        split_at_spaces(s).len() >= 1,
    decreases s.len(),
{
    if s.len() > 0 {
        lemma_split_len(s.drop_last());
    }
}

/// The pieces of a prefix of `s`, but for the last, are pieces of `s`.
proof fn lemma_split_prefix(s: Seq<char>, i: int)
    requires
        0 <= i <= s.len(),
    ensures
        split_at_spaces(s.take(i)).len() <= split_at_spaces(s).len(),
        forall|j: int|
            0 <= j < split_at_spaces(s.take(i)).len() - 1 ==> split_at_spaces(s)[j]
                == #[trigger] split_at_spaces(s.take(i))[j],
    decreases s.len() - i,
{
    if i == s.len() {
        assert(s.take(i) =~= s);
    } else {
        lemma_split_prefix(s, i + 1);
        lemma_split_len(s.take(i));
        assert(s.take(i + 1).drop_last() =~= s.take(i));
        let init = split_at_spaces(s.take(i));
        let next = split_at_spaces(s.take(i + 1));
        assert forall|j: int| 0 <= j < init.len() - 1 implies split_at_spaces(s)[j]
            == #[trigger] init[j] by {
            assert(next[j] == init[j]);
        }
    }
}

/// Whether `name` is one of the space separated names in `extensions`.
pub fn is_extension_listed(extensions: &str, name: &str) -> (r: bool)
    ensures
        r == split_at_spaces(extensions@).contains(name@),
{
    let ghost s = extensions@;
    let n = extensions.unicode_len();
    let wanted = String::from_str(name);
    let mut start: usize = 0;
    let mut i: usize = 0;
    assert(s.take(0) =~= Seq::<char>::empty());
    assert(split_at_spaces(s.take(0)) =~= seq![Seq::<char>::empty()]);
    while i < n
        invariant
            n == s.len(),
            s == extensions@,
            wanted@ == name@,
            start <= i <= n,
            split_at_spaces(s.take(i as int)).last() == s.subrange(start as int, i as int),
            split_at_spaces(s.take(i as int)).len() >= 1,
            forall|j: int|
                0 <= j < split_at_spaces(s.take(i as int)).len() - 1 ==> #[trigger] split_at_spaces(
                    s.take(i as int),
                )[j] != name@,
        decreases n - i,
    {
        let ghost before = split_at_spaces(s.take(i as int));
        assert(s.take(i + 1).drop_last() =~= s.take(i as int));
        if extensions.get_char(i) == ' ' {
            let piece = String::from_str(extensions.substring_char(start, i));
            if piece == wanted {
                proof {
                    let after = split_at_spaces(s.take(i + 1));
                    assert(after[before.len() - 1] == piece@);
                    lemma_split_prefix(s, i + 1);
                    assert(split_at_spaces(s)[before.len() - 1] == name@);
                }
                return true;
            }
            start = i + 1;
            assert(s.subrange(start as int, i + 1) =~= Seq::<char>::empty());
        } else {
            assert(s.subrange(start as int, i + 1) =~= s.subrange(start as int, i as int).push(
                s[i as int],
            ));
        }
        i += 1;
    }
    let last = String::from_str(extensions.substring_char(start, n));
    assert(s.take(n as int) =~= s);
    let found = last == wanted;
    proof {
        let words = split_at_spaces(s);
        if words.contains(name@) {
            let j = choose|j: int| 0 <= j < words.len() && words[j] == name@;
            assert(j == words.len() - 1);
        }
        if found {
            assert(words[words.len() - 1] == name@);
        }
    }
    found
}

} // verus!
