//! The report that the debugging sample prints for an OpenGL debug message.

use vstd::prelude::*;
use crate::mesh::{decimal_string, push_decimal};

verus! {

/// `GL_DEBUG_SOURCE_API`.
pub const DEBUG_SOURCE_API: u32 = 0x8246u32;
/// `GL_DEBUG_SOURCE_WINDOW_SYSTEM`.
pub const DEBUG_SOURCE_WINDOW_SYSTEM: u32 = 0x8247u32;
/// `GL_DEBUG_SOURCE_SHADER_COMPILER`.
pub const DEBUG_SOURCE_SHADER_COMPILER: u32 = 0x8248u32;
/// `GL_DEBUG_SOURCE_THIRD_PARTY`.
pub const DEBUG_SOURCE_THIRD_PARTY: u32 = 0x8249u32;
/// `GL_DEBUG_SOURCE_APPLICATION`.
pub const DEBUG_SOURCE_APPLICATION: u32 = 0x824Au32;
/// `GL_DEBUG_SOURCE_OTHER`.
pub const DEBUG_SOURCE_OTHER: u32 = 0x824Bu32;
/// `GL_DEBUG_TYPE_ERROR`.
pub const DEBUG_TYPE_ERROR: u32 = 0x824Cu32;
/// `GL_DEBUG_TYPE_DEPRECATED_BEHAVIOR`.
pub const DEBUG_TYPE_DEPRECATED_BEHAVIOR: u32 = 0x824Du32;
/// `GL_DEBUG_TYPE_UNDEFINED_BEHAVIOR`.
pub const DEBUG_TYPE_UNDEFINED_BEHAVIOR: u32 = 0x824Eu32;
/// `GL_DEBUG_TYPE_PORTABILITY`.
pub const DEBUG_TYPE_PORTABILITY: u32 = 0x824Fu32;
/// `GL_DEBUG_TYPE_PERFORMANCE`.
pub const DEBUG_TYPE_PERFORMANCE: u32 = 0x8250u32;
/// `GL_DEBUG_TYPE_OTHER`.
pub const DEBUG_TYPE_OTHER: u32 = 0x8251u32;
/// `GL_DEBUG_TYPE_MARKER`.
pub const DEBUG_TYPE_MARKER: u32 = 0x8268u32;
/// `GL_DEBUG_TYPE_PUSH_GROUP`.
pub const DEBUG_TYPE_PUSH_GROUP: u32 = 0x8269u32;
/// `GL_DEBUG_TYPE_POP_GROUP`.
pub const DEBUG_TYPE_POP_GROUP: u32 = 0x826Au32;
/// `GL_DEBUG_SEVERITY_HIGH`.
pub const DEBUG_SEVERITY_HIGH: u32 = 0x9146u32;
/// `GL_DEBUG_SEVERITY_MEDIUM`.
pub const DEBUG_SEVERITY_MEDIUM: u32 = 0x9147u32;
/// `GL_DEBUG_SEVERITY_LOW`.
pub const DEBUG_SEVERITY_LOW: u32 = 0x9148u32;
/// `GL_DEBUG_SEVERITY_NOTIFICATION`.
pub const DEBUG_SEVERITY_NOTIFICATION: u32 = 0x826Bu32;

/// Message ids that drivers report without significance; they are not reported.
pub open spec fn ignored_id(id: u32) -> bool {
    id == 131169 || id == 131185 || id == 131218 || id == 131204
}

/// The line naming the source of a message, if the source is a known one.
pub open spec fn source_line(source: u32) -> Option<Seq<char>> {
    if source == DEBUG_SOURCE_API {
        Some("Source: API"@)
    } else if source == DEBUG_SOURCE_WINDOW_SYSTEM {
        Some("Source: Window System"@)
    } else if source == DEBUG_SOURCE_SHADER_COMPILER {
        Some("Source: Shader Compiler"@)
    } else if source == DEBUG_SOURCE_THIRD_PARTY {
        Some("Source: Third Party"@)
    } else if source == DEBUG_SOURCE_APPLICATION {
        Some("Source: Application"@)
    } else if source == DEBUG_SOURCE_OTHER {
        Some("Source: Other"@)
    } else {
        None
    }
}

/// The line naming the type of a message, if the type is a known one.
pub open spec fn type_line(gltype: u32) -> Option<Seq<char>> {
    if gltype == DEBUG_TYPE_ERROR {
        Some("Type: Error"@)
    } else if gltype == DEBUG_TYPE_DEPRECATED_BEHAVIOR {
        Some("Type: Deprecated Behaviour"@)
    } else if gltype == DEBUG_TYPE_UNDEFINED_BEHAVIOR {
        Some("Type: Undefined Behaviour"@)
    } else if gltype == DEBUG_TYPE_PORTABILITY {
        Some("Type: Portability"@)
    } else if gltype == DEBUG_TYPE_PERFORMANCE {
        Some("Type: Performance"@)
    } else if gltype == DEBUG_TYPE_MARKER {
        Some("Type: Marker"@)
    } else if gltype == DEBUG_TYPE_PUSH_GROUP {
        Some("Type: Push Group"@)
    } else if gltype == DEBUG_TYPE_POP_GROUP {
        Some("Type: Pop Group"@)
    } else if gltype == DEBUG_TYPE_OTHER {
        Some("Type: Other"@)
    } else {
        None
    }
}

/// The line naming the severity of a message, if the severity is a known one.
pub open spec fn severity_line(severity: u32) -> Option<Seq<char>> {
    if severity == DEBUG_SEVERITY_HIGH {
        Some("Severity: high"@)
    } else if severity == DEBUG_SEVERITY_MEDIUM {
        Some("Severity: medium"@)
    } else if severity == DEBUG_SEVERITY_LOW {
        Some("Severity: low"@)
    } else if severity == DEBUG_SEVERITY_NOTIFICATION {
        Some("Severity: notification"@)
    } else {
        None
    }
}

/// No line for an unknown value, else the one line.
pub open spec fn lines_of(line: Option<Seq<char>>) -> Seq<Seq<char>> {
    match line {
        Some(l) => seq![l],
        None => Seq::empty(),
    }
}

/// The lines printed for a message that is not ignored: a rule, the id and text, the known
/// source, type and severity names, and an empty line.
pub open spec fn report_lines(source: u32, gltype: u32, id: u32, severity: u32, message: Seq<char>) -> Seq<
    Seq<char>,
> {
    seq!["---------------"@, "Debug message ("@ + decimal_string(id as nat) + "): "@ + message] + lines_of(
        source_line(source),
    ) + lines_of(type_line(gltype)) + lines_of(severity_line(severity)) + seq![""@]
}

fn push_line(lines: &mut Vec<String>, line: Option<&str>)
    ensures
        final(lines)@.map_values(|s: String| s@) == old(lines)@.map_values(|s: String| s@) + lines_of(
            match line {
                Some(l) => Some(l@),
                None => None,
            },
        ),
{
    let ghost before = lines@.map_values(|s: String| s@);
    match line {
        Some(l) => {
            lines.push(String::from_str(l));
            assert(lines@.map_values(|s: String| s@) =~= before + seq![l@]);
        },
        None => {
            assert(lines@.map_values(|s: String| s@) =~= before + Seq::<Seq<char>>::empty());
        },
    }
}

fn source_name(source: u32) -> (r: Option<&'static str>)
    ensures
        (match r {
            Some(l) => Some(l@),
            None => None,
        }) == source_line(source),
{
    if source == DEBUG_SOURCE_API {
        Some("Source: API")
    } else if source == DEBUG_SOURCE_WINDOW_SYSTEM {
        Some("Source: Window System")
    } else if source == DEBUG_SOURCE_SHADER_COMPILER {
        Some("Source: Shader Compiler")
    } else if source == DEBUG_SOURCE_THIRD_PARTY {
        Some("Source: Third Party")
    } else if source == DEBUG_SOURCE_APPLICATION {
        Some("Source: Application")
    } else if source == DEBUG_SOURCE_OTHER {
        Some("Source: Other")
    } else {
        None
    }
}

fn type_name_line(gltype: u32) -> (r: Option<&'static str>)
    ensures
        (match r {
            Some(l) => Some(l@),
            None => None,
        }) == type_line(gltype),
{
    if gltype == DEBUG_TYPE_ERROR {
        Some("Type: Error")
    } else if gltype == DEBUG_TYPE_DEPRECATED_BEHAVIOR {
        Some("Type: Deprecated Behaviour")
    } else if gltype == DEBUG_TYPE_UNDEFINED_BEHAVIOR {
        Some("Type: Undefined Behaviour")
    } else if gltype == DEBUG_TYPE_PORTABILITY {
        Some("Type: Portability")
    } else if gltype == DEBUG_TYPE_PERFORMANCE {
        Some("Type: Performance")
    } else if gltype == DEBUG_TYPE_MARKER {
        Some("Type: Marker")
    } else if gltype == DEBUG_TYPE_PUSH_GROUP {
        Some("Type: Push Group")
    } else if gltype == DEBUG_TYPE_POP_GROUP {
        Some("Type: Pop Group")
    } else if gltype == DEBUG_TYPE_OTHER {
        Some("Type: Other")
    } else {
        None
    }
}

fn severity_name(severity: u32) -> (r: Option<&'static str>)
    ensures
        (match r {
            Some(l) => Some(l@),
            None => None,
        }) == severity_line(severity),
{
    if severity == DEBUG_SEVERITY_HIGH {
        Some("Severity: high")
    } else if severity == DEBUG_SEVERITY_MEDIUM {
        Some("Severity: medium")
    } else if severity == DEBUG_SEVERITY_LOW {
        Some("Severity: low")
    } else if severity == DEBUG_SEVERITY_NOTIFICATION {
        Some("Severity: notification")
    } else {
        None
    }
}

/// The lines to print for an OpenGL debug message, or none for an insignificant id.
pub fn debug_report(source: u32, gltype: u32, id: u32, severity: u32, message: &str) -> (r: Option<
    Vec<String>,
>)
    ensures
        ignored_id(id) <==> r is None,
        r matches Some(v) ==> v@.map_values(|s: String| s@) == report_lines(source, gltype, id, severity, message@),
{
    if id == 131169 || id == 131185 || id == 131218 || id == 131204 {
        return None;
    }
    let mut lines: Vec<String> = Vec::new();
    lines.push(String::from_str("---------------"));
    let mut head = String::from_str("Debug message (");
    push_decimal(&mut head, id);
    head.append("): ");
    head.append(message);
    lines.push(head);
    assert(lines@.map_values(|s: String| s@) =~= seq![
        "---------------"@,
        "Debug message ("@ + decimal_string(id as nat) + "): "@ + message@,
    ]);
    push_line(&mut lines, source_name(source));
    push_line(&mut lines, type_name_line(gltype));
    push_line(&mut lines, severity_name(severity));
    let ghost before = lines@.map_values(|s: String| s@);
    lines.push(String::from_str(""));
    assert(lines@.map_values(|s: String| s@) =~= before + seq![""@]);
    Some(lines)
}

} // verus!
