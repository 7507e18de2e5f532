//! Preparing a script for a run-once execution.
//!
//! A top-level script is never evaluated bare: it is placed inside a
//! `try` block whose handler stores the error's message and stack in
//! `globalThis.result`, so that a throwing script ends with a structured
//! error in the result slot and nothing propagates out of the engine.

use vstd::prelude::*;
use vstd::string::*;

verus! {

/// The text placed before the script.
pub open spec fn wrapper_head() -> Seq<char> {
    "try {\n                    "@
}

/// The text placed after the script.
pub open spec fn wrapper_tail() -> Seq<char> {
    "\n                } catch (e) {\n                    globalThis.result = {\n                        error: {\n                            message: e.message,\n                            stack: e.stack,\n                        }\n                    }\n                }"@
}

/// The script inside its error-capturing wrapper.
pub open spec fn wrapped(script: Seq<char>) -> Seq<char> {
    wrapper_head() + script + wrapper_tail()
}

/// Wraps `script` so that an error thrown by it is captured in the result
/// slot.
pub fn wrap_script(script: &str) -> (text: String)
    ensures
        text@ == wrapped(script@),
{
    let mut text = String::from_str("try {\n                    ");
    text.append(script);
    text.append(
        "\n                } catch (e) {\n                    globalThis.result = {\n                        error: {\n                            message: e.message,\n                            stack: e.stack,\n                        }\n                    }\n                }",
    );
    text
}

/// The script can be read back out of its wrapper unchanged: the wrapper
/// adds text before and after it and alters nothing in between.
pub proof fn lemma_wrapped_holds_script(script: Seq<char>)
    ensures
        wrapped(script).len() == wrapper_head().len() + script.len() + wrapper_tail().len(),
        wrapped(script).subrange(
            wrapper_head().len() as int,
            (wrapper_head().len() + script.len()) as int,
        ) == script,
{
    assert(wrapped(script).subrange(
        wrapper_head().len() as int,
        (wrapper_head().len() + script.len()) as int,
    ) =~= script);
}

} // verus!
