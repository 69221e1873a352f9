//! The report of the web server's configuration that is logged at start-up.
use vstd::prelude::*;
use vstd::string::*;
use crate::text::{decimal, push_decimal};

verus! {

/// `n` spaces.
pub open spec fn spaces(n: nat) -> Seq<char> {
    Seq::new(n, |i: int| ' ')
}

/// `s` padded with spaces on the right to at least `width` characters, as
/// `format!("{s:<width$}")` writes it.
pub open spec fn padded(s: Seq<char>, width: nat) -> Seq<char> {
    if s.len() >= width {
        s
    } else {
        s + spaces((width - s.len()) as nat)
    }
}

/// The text of a setting that may be missing.
pub open spec fn or_undefined(value: Option<Seq<char>>) -> Seq<char> {
    match value {
        Some(s) => s,
        None => "[ERROR] Undefined"@,
    }
}

/// The lines of a list, each indented by four spaces and ended by a newline.
pub open spec fn indented(lines: Seq<Seq<char>>) -> Seq<char>
    decreases lines.len(),
{
    if lines.len() == 0 {
        Seq::empty()
    } else {
        indented(lines.drop_last()) + "    "@ + lines.last() + "\n"@
    }
}

/// A list of lines between brackets.
pub open spec fn listing(lines: Seq<Seq<char>>) -> Seq<char> {
    "[\n"@ + indented(lines) + "]"@
}

/// The line of a size limit: its name and its value.
pub open spec fn limit_line(limit: (String, String)) -> Seq<char> {
    limit.0@ + ": "@ + limit.1@
}

/// The line of a route: its method, its path and its name.
pub open spec fn route_line(route: (String, String, Option<String>)) -> Seq<char> {
    padded(route.0@, 5) + " "@ + padded(route.1@, 20) + " "@ + or_undefined(
        match route.2 {
            Some(s) => Some(s@),
            None => None,
        },
    )
}

/// The line of an error catcher: its status code, its base path and its name.
pub open spec fn catcher_line(catcher: (Option<u16>, String, Option<String>)) -> Seq<char> {
    let code = match catcher.0 {
        Some(c) => decimal(c as nat),
        None => "[ERROR] Undefined"@,
    };
    padded(code, 5) + " "@ + padded(catcher.1@, 20) + " "@ + or_undefined(
        match catcher.2 {
            Some(s) => Some(s@),
            None => None,
        },
    )
}

/// The whole report.
pub open spec fn config_report_text(
    profile: Seq<char>,
    address: Seq<char>,
    port: u16,
    workers: usize,
    ident: Option<Seq<char>>,
    ip_header: Option<Seq<char>>,
    limits: Seq<(String, String)>,
    keep_alive_secs: u32,
    shutdown: Seq<char>,
    routes: Seq<(String, String, Option<String>)>,
    catchers: Seq<(Option<u16>, String, Option<String>)>,
) -> Seq<char> {
    "\nConfig:\nUsing profile: "@ + profile + "\nAddress: "@ + address + ":"@ + decimal(
        port as nat,
    ) + "\nWorkers: "@ + decimal(workers as nat) + "\nIndent: "@ + or_undefined(ident)
        + "\nHeaders: "@ + or_undefined(ip_header) + "\nLimits: "@ + listing(
        limits.map_values(|l: (String, String)| limit_line(l)),
    ) + "\nConnection lifetime: "@ + decimal(keep_alive_secs as nat) + "s\nShutdown mode: "@
        + shutdown + "\nRoutes: "@ + listing(
        routes.map_values(|r: (String, String, Option<String>)| route_line(r)),
    ) + "\nCatchers: "@ + listing(
        catchers.map_values(|c: (Option<u16>, String, Option<String>)| catcher_line(c)),
    )
}

/// The view of an optional string.
pub open spec fn opt_view(value: Option<&str>) -> Option<Seq<char>> {
    match value {
        Some(s) => Some(s@),
        None => None,
    }
}

/// Appends `s` padded with spaces to at least `width` characters.
fn push_padded(out: &mut String, s: &str, width: usize)
    ensures
        final(out)@ == old(out)@ + padded(s@, width as nat),
{
    out.append(s);
    let n = s.unicode_len();
    let mut k = n;
    proof {
        reveal_strlit(" ");
        assert(out@ =~= old(out)@ + s@ + spaces(0));
    }
    while k < width
        invariant
            n == s@.len(),
            n <= k,
            k <= width || k == n,
            out@ == old(out)@ + s@ + spaces((k - n) as nat),
        decreases width - k,
    {
        out.append(" ");
        proof {
            reveal_strlit(" ");
            assert(old(out)@ + s@ + spaces((k + 1 - n) as nat) =~= old(out)@ + s@ + spaces(
                (k - n) as nat,
            ) + " "@);
        }
        k = k + 1;
    }
    proof {
        if n >= width {
            assert(out@ =~= old(out)@ + s@);
        } else {
            assert(k == width);
            assert(old(out)@ + padded(s@, width as nat) =~= old(out)@ + s@ + spaces(
                (k - n) as nat,
            ));
        }
    }
}

/// Appends the text of a setting that may be missing.
fn push_or_undefined(out: &mut String, value: Option<&str>)
    ensures
        final(out)@ == old(out)@ + or_undefined(opt_view(value)),
{
    match value {
        Some(s) => out.append(s),
        None => out.append("[ERROR] Undefined"),
    }
}

/// Appends the text of an optional name.
fn push_name(out: &mut String, name: &Option<String>)
    ensures
        final(out)@ == old(out)@ + or_undefined(
            match *name {
                Some(s) => Some(s@),
                None => None,
            },
        ),
{
    match name {
        Some(s) => out.append(s.as_str()),
        None => out.append("[ERROR] Undefined"),
    }
}

/// Appends the line of a route.
fn push_route_line(out: &mut String, route: &(String, String, Option<String>))
    ensures
        final(out)@ == old(out)@ + route_line(*route),
{
    push_padded(out, route.0.as_str(), 5);
    out.append(" ");
    push_padded(out, route.1.as_str(), 20);
    out.append(" ");
    push_name(out, &route.2);
    assert(out@ =~= old(out)@ + route_line(*route));
}

/// Appends the line of an error catcher.
fn push_catcher_line(out: &mut String, catcher: &(Option<u16>, String, Option<String>))
    ensures
        final(out)@ == old(out)@ + catcher_line(*catcher),
{
    let mut code = String::new();
    match catcher.0 {
        Some(c) => push_decimal(&mut code, c as u64),
        None => code.append("[ERROR] Undefined"),
    }
    assert(code@ =~= match catcher.0 {
        Some(c) => decimal(c as nat),
        None => "[ERROR] Undefined"@,
    });
    push_padded(out, code.as_str(), 5);
    out.append(" ");
    push_padded(out, catcher.1.as_str(), 20);
    out.append(" ");
    push_name(out, &catcher.2);
    assert(out@ =~= old(out)@ + catcher_line(*catcher));
}

/// The step that appends one more indented line.
proof fn lemma_indented_step(lines: Seq<Seq<char>>, i: int)
    requires
        0 <= i < lines.len(),
    ensures
        indented(lines.take(i + 1)) == indented(lines.take(i)) + "    "@ + lines[i] + "\n"@,
{
    assert(lines.take(i + 1).drop_last() =~= lines.take(i));
}

/// Appends the list of size limits.
fn push_limits(out: &mut String, limits: &Vec<(String, String)>)
    ensures
        final(out)@ == old(out)@ + listing(limits@.map_values(|l: (String, String)| limit_line(l))),
{
    let ghost lines = limits@.map_values(|l: (String, String)| limit_line(l));
    out.append("[\n");
    let mut i: usize = 0;
    assert(lines.take(0) =~= Seq::<Seq<char>>::empty());
    while i < limits.len()
        invariant
            i <= limits.len(),
            lines == limits@.map_values(|l: (String, String)| limit_line(l)),
            out@ == old(out)@ + "[\n"@ + indented(lines.take(i as int)),
        decreases limits.len() - i,
    {
        let ghost before = out@;
        out.append("    ");
        out.append(limits[i].0.as_str());
        out.append(": ");
        out.append(limits[i].1.as_str());
        out.append("\n");
        proof {
            lemma_indented_step(lines, i as int);
            assert(lines[i as int] == limit_line(limits@[i as int]));
            assert(out@ =~= before + "    "@ + lines[i as int] + "\n"@);
        }
        i = i + 1;
    }
    out.append("]");
    assert(lines.take(i as int) =~= lines);
    assert(out@ =~= old(out)@ + listing(lines));
}

/// Appends the list of routes.
fn push_routes(out: &mut String, routes: &Vec<(String, String, Option<String>)>)
    ensures
        final(out)@ == old(out)@ + listing(
            routes@.map_values(|r: (String, String, Option<String>)| route_line(r)),
        ),
{
    let ghost lines = routes@.map_values(|r: (String, String, Option<String>)| route_line(r));
    out.append("[\n");
    let mut i: usize = 0;
    assert(lines.take(0) =~= Seq::<Seq<char>>::empty());
    while i < routes.len()
        invariant
            i <= routes.len(),
            lines == routes@.map_values(|r: (String, String, Option<String>)| route_line(r)),
            out@ == old(out)@ + "[\n"@ + indented(lines.take(i as int)),
        decreases routes.len() - i,
    {
        let ghost before = out@;
        out.append("    ");
        push_route_line(out, &routes[i]);
        out.append("\n");
        proof {
            lemma_indented_step(lines, i as int);
            assert(lines[i as int] == route_line(routes@[i as int]));
            assert(out@ =~= before + "    "@ + lines[i as int] + "\n"@);
        }
        i = i + 1;
    }
    out.append("]");
    assert(lines.take(i as int) =~= lines);
    assert(out@ =~= old(out)@ + listing(lines));
}

/// Appends the list of error catchers.
fn push_catchers(out: &mut String, catchers: &Vec<(Option<u16>, String, Option<String>)>)
    ensures
        final(out)@ == old(out)@ + listing(
            catchers@.map_values(|c: (Option<u16>, String, Option<String>)| catcher_line(c)),
        ),
{
    let ghost lines = catchers@.map_values(
        |c: (Option<u16>, String, Option<String>)| catcher_line(c),
    );
    out.append("[\n");
    let mut i: usize = 0;
    assert(lines.take(0) =~= Seq::<Seq<char>>::empty());
    while i < catchers.len()
        invariant
            i <= catchers.len(),
            lines == catchers@.map_values(
                |c: (Option<u16>, String, Option<String>)| catcher_line(c),
            ),
            out@ == old(out)@ + "[\n"@ + indented(lines.take(i as int)),
        decreases catchers.len() - i,
    {
        let ghost before = out@;
        out.append("    ");
        push_catcher_line(out, &catchers[i]);
        out.append("\n");
        proof {
            lemma_indented_step(lines, i as int);
            assert(lines[i as int] == catcher_line(catchers@[i as int]));
            assert(out@ =~= before + "    "@ + lines[i as int] + "\n"@);
        }
        i = i + 1;
    }
    out.append("]");
    assert(lines.take(i as int) =~= lines);
    assert(out@ =~= old(out)@ + listing(lines));
}

/// The report of the web server's configuration: its profile, address and
/// port, worker count, identity, client-IP header, size limits, connection
/// lifetime in seconds, shutdown mode, routes and error catchers, one per
/// line; a missing setting reads `[ERROR] Undefined`.
pub fn config_report(
    profile: &str,
    address: &str,
    port: u16,
    workers: usize,
    ident: Option<&str>,
    ip_header: Option<&str>,
    limits: &Vec<(String, String)>,
    keep_alive_secs: u32,
    shutdown: &str,
    routes: &Vec<(String, String, Option<String>)>,
    catchers: &Vec<(Option<u16>, String, Option<String>)>,
) -> (r: String)
    ensures
        r@ == config_report_text(
            profile@,
            address@,
            port,
            workers,
            opt_view(ident),
            opt_view(ip_header),
            limits@,
            keep_alive_secs,
            shutdown@,
            routes@,
            catchers@,
        ),
{
    let mut out = String::new();
    out.append("\nConfig:\nUsing profile: ");
    out.append(profile);
    out.append("\nAddress: ");
    out.append(address);
    out.append(":");
    push_decimal(&mut out, port as u64);
    out.append("\nWorkers: ");
    push_decimal(&mut out, workers as u64);
    out.append("\nIndent: ");
    push_or_undefined(&mut out, ident);
    out.append("\nHeaders: ");
    push_or_undefined(&mut out, ip_header);
    out.append("\nLimits: ");
    push_limits(&mut out, limits);
    out.append("\nConnection lifetime: ");
    push_decimal(&mut out, keep_alive_secs as u64);
    out.append("s\nShutdown mode: ");
    out.append(shutdown);
    out.append("\nRoutes: ");
    push_routes(&mut out, routes);
    out.append("\nCatchers: ");
    push_catchers(&mut out, catchers);
    assert(out@ =~= config_report_text(
        profile@,
        address@,
        port,
        workers,
        opt_view(ident),
        opt_view(ip_header),
        limits@,
        keep_alive_secs,
        shutdown@,
        routes@,
        catchers@,
    ));
    out
}

} // verus!
