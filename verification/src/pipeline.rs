//! The whole pipeline, source text to wrapped program, and the two program
//! skeletons that the backends put around the rendered body.

use vstd::prelude::*;
use crate::config::LanguageConfig;
use crate::error::TranspileError;
use crate::parse::parse_final;
use crate::parse::parse_source;
use crate::render::generate_c_code;
use crate::render::generate_python_code;
use crate::render::render_nodes_c;
use crate::render::render_nodes_py;

verus! {

/// Wrap a rendered body in the C-like program skeleton.
pub fn wrap_c_program(body: &str) -> (r: String)
    ensures
        r@ == "#include <stdio.h>\n\nint main() {\n"@ + body@ + "    return 0;\n}\n"@,
{
    let mut r = String::from_str("#include <stdio.h>\n\nint main() {\n");
    r.append(body);
    r.append("    return 0;\n}\n");
    r
}

/// Wrap a rendered body in the Python-like program skeleton.
pub fn wrap_python_program(body: &str) -> (r: String)
    ensures
        r@ == "def main():\n"@ + body@ + "\nif __name__ == \"__main__\":\n    main()\n"@,
{
    let mut r = String::from_str("def main():\n");
    r.append(body);
    r.append("\nif __name__ == \"__main__\":\n    main()\n");
    r
}

/// Run the whole pipeline for the C-like target: parse the source with the
/// definition, render the tree at one level of indentation with no variable
/// declared yet, and wrap the body in the program skeleton.
pub fn transpile_c(source: &str, config: &LanguageConfig) -> (r: Result<String, TranspileError>)
    ensures
        ({
            let st = parse_final(source@, config@);
            if st.stack.len() > 0 {
                r matches Err(TranspileError::MalformedSource(k)) && k as nat
                    == st.stack.last().line
            } else {
                let out = render_nodes_c(st.top, config@, Seq::empty(), 1);
                match out.result {
                    Ok(t) => r matches Ok(s) && s@ == "#include <stdio.h>\n\nint main() {\n"@ + t
                        + "    return 0;\n}\n"@,
                    Err(name) => r matches Err(TranspileError::UnknownRule(n)) && n@ == name,
                }
            }
        }),
{
    match parse_source(source, config) {
        Err(e) => Err(e),
        Ok(ast) => {
            let mut declared: Vec<String> = Vec::new();
            proof {
                assert(declared.deep_view() =~= Seq::<Seq<char>>::empty());
            }
            match generate_c_code(&ast, config, &mut declared, 1) {
                Err(e) => Err(e),
                Ok(body) => Ok(wrap_c_program(body.as_str())),
            }
        },
    }
}

/// Run the whole pipeline for the Python-like target: parse the source with
/// the definition, render the tree at one level of indentation, and wrap
/// the body in the program skeleton.
pub fn transpile_python(source: &str, config: &LanguageConfig) -> (r: Result<
    String,
    TranspileError,
>)
    ensures
        ({
            let st = parse_final(source@, config@);
            if st.stack.len() > 0 {
                r matches Err(TranspileError::MalformedSource(k)) && k as nat
                    == st.stack.last().line
            } else {
                match render_nodes_py(st.top, config@, 1) {
                    Ok(t) => r matches Ok(s) && s@ == "def main():\n"@ + t
                        + "\nif __name__ == \"__main__\":\n    main()\n"@,
                    Err(name) => r matches Err(TranspileError::UnknownRule(n)) && n@ == name,
                }
            }
        }),
{
    match parse_source(source, config) {
        Err(e) => Err(e),
        Ok(ast) => {
            match generate_python_code(&ast, config, 1) {
                Err(e) => Err(e),
                Ok(body) => Ok(wrap_python_program(body.as_str())),
            }
        },
    }
}

} // verus!
