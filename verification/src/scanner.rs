//! Analysis of detected tools and repositories.
//!
//! Probing the machine — running version commands, reading the
//! environment — happens outside the library; what comes back are
//! plain records of detected tools.  The scanner's own logic is here:
//! finding conflicts among the detected tools, suggesting what is
//! missing, and describing what a repository needs.

use vstd::prelude::*;

use crate::strings::{str_eq, string_has_part, text_has_part};
use vstd::string::StringExecFns;

verus! {

/// One tool found on the machine.
#[derive(Debug, Clone)]
pub struct DetectedTool {
    pub name: String,
    pub tool_type: String,
    pub version: String,
    pub path: String,
    pub size: u64,
    pub status: String,
}

/// A conflict among detected tools, with a suggested resolution.
#[derive(Debug, Clone)]
pub struct ToolConflict {
    pub tool_name: String,
    pub conflict_type: String,
    pub description: String,
    pub resolution: String,
    pub severity: String,
}

/// A machine summary.
#[derive(Debug, Clone)]
pub struct SystemInfo {
    pub os: String,
    pub arch: String,
    pub cpu_count: usize,
    pub memory_total: u64,
    pub disk_total: u64,
    pub platform_version: String,
    pub shell: String,
}

/// What a repository needs to be worked on.
#[derive(Debug, Clone)]
pub struct RepositoryAnalysis {
    pub url: String,
    pub detected_languages: Vec<String>,
    pub frameworks: Vec<String>,
    pub databases: Vec<String>,
    pub services: Vec<String>,
    pub tools_needed: Vec<ToolRequirement>,
    pub estimated_setup_time: u32,
    pub complexity_score: u8,
    pub suggested_workspace_type: String,
}

/// One tool a repository needs.
#[derive(Debug, Clone)]
pub struct ToolRequirement {
    pub name: String,
    pub tool_type: String,
    pub version: Option<String>,
    pub required: bool,
    pub alternatives: Vec<String>,
}

/// How many tools have a name containing the given text.
pub open spec fn count_with_part(tools: Seq<DetectedTool>, part: Seq<char>) -> int
    decreases tools.len(),
{
    if tools.len() == 0 {
        0
    } else {
        (if text_has_part(tools[0].name@, part) {
            1int
        } else {
            0int
        }) + count_with_part(tools.subrange(1, tools.len() as int), part)
    }
}

/// True iff some tool carries exactly the given name.
pub open spec fn has_named(tools: Seq<DetectedTool>, name: Seq<char>) -> bool {
    exists|i: int| 0 <= i < tools.len() && (#[trigger] tools[i]).name@ == name
}

/// Counting one more tool.
proof fn lemma_count_with_part_push(tools: Seq<DetectedTool>, part: Seq<char>, t: DetectedTool)
    ensures
        count_with_part(tools.push(t), part) == count_with_part(tools, part) + (if text_has_part(
            t.name@,
            part,
        ) {
            1int
        } else {
            0int
        }),
    decreases tools.len(),
{
    if tools.len() == 0 {
        assert(tools.push(t)[0] == t);
        assert(tools.push(t).subrange(1, 1) =~= tools);
    } else {
        let rest = tools.subrange(1, tools.len() as int);
        lemma_count_with_part_push(rest, part, t);
        assert(tools.push(t).subrange(1, tools.push(t).len() as int) =~= rest.push(t));
    }
}

/// Count the tools whose name contains the given text.
fn count_tools_containing(tools: &[DetectedTool], part: &String) -> (r: usize)
    ensures
        r == count_with_part(tools@, part@),
        r <= tools@.len(),
{
    let mut c: usize = 0;
    let mut i: usize = 0;
    proof {
        assert(tools@.subrange(0, 0) =~= Seq::<DetectedTool>::empty());
    }
    while i < tools.len()
        invariant
            i <= tools@.len(),
            c <= i,
            c == count_with_part(tools@.subrange(0, i as int), part@),
        decreases tools@.len() - i,
    {
        proof {
            lemma_count_with_part_push(tools@.subrange(0, i as int), part@, tools@[i as int]);
            assert(tools@.subrange(0, i as int + 1) =~= tools@.subrange(0, i as int).push(
                tools@[i as int],
            ));
        }
        if string_has_part(&tools[i].name, part) {
            c = c + 1;
        }
        i = i + 1;
    }
    proof {
        assert(tools@.subrange(0, tools@.len() as int) =~= tools@);
    }
    c
}

/// Whether some tool carries exactly the given name.
fn any_tool_named(tools: &[DetectedTool], name: &String) -> (r: bool)
    ensures
        r == has_named(tools@, name@),
{
    let mut i: usize = 0;
    while i < tools.len()
        invariant
            i <= tools@.len(),
            forall|j: int| 0 <= j < i ==> (#[trigger] tools@[j]).name@ != name@,
        decreases tools@.len() - i,
    {
        if str_eq(&tools[i].name, name) {
            return true;
        }
        i = i + 1;
    }
    false
}

/// The scanner: conflict detection and suggestions over detected
/// tools.
#[derive(Debug)]
pub struct SystemScanner;

impl SystemScanner {
    /// A scanner.
    pub fn new() -> (r: Self) {
        SystemScanner
    }

    /// Version conflicts among the detected tools: more than one tool
    /// whose name mentions Python, or more than one whose name
    /// mentions Node.
    pub fn detect_conflicts(&self, tools: &[DetectedTool]) -> (r: Vec<ToolConflict>)
        ensures
            r@.len() == (if count_with_part(tools@, "Python"@) > 1 {
                1int
            } else {
                0int
            }) + (if count_with_part(tools@, "Node"@) > 1 {
                1int
            } else {
                0int
            }),
            count_with_part(tools@, "Python"@) > 1 ==> r@[0].tool_name@ == "Python"@
                && r@[0].conflict_type@ == "version"@,
            count_with_part(tools@, "Node"@) > 1 ==> r@[r@.len() - 1].tool_name@ == "Node.js"@
                && r@[r@.len() - 1].conflict_type@ == "version"@,
    {
        let mut conflicts: Vec<ToolConflict> = Vec::new();
        if count_tools_containing(tools, &String::from_str("Python")) > 1 {
            conflicts.push(
                ToolConflict {
                    tool_name: String::from_str("Python"),
                    conflict_type: String::from_str("version"),
                    description: String::from_str("Multiple Python versions detected"),
                    resolution: String::from_str("Use pyenv to manage Python versions"),
                    severity: String::from_str("medium"),
                },
            );
        }
        if count_tools_containing(tools, &String::from_str("Node")) > 1 {
            conflicts.push(
                ToolConflict {
                    tool_name: String::from_str("Node.js"),
                    conflict_type: String::from_str("version"),
                    description: String::from_str("Multiple Node.js versions detected"),
                    resolution: String::from_str("Use nvm to manage Node.js versions"),
                    severity: String::from_str("medium"),
                },
            );
        }
        conflicts
    }

    /// What to install or clean up, given the detected tools and
    /// conflicts: version control, containers, and conflict cleanup.
    pub fn generate_suggestions(&self, tools: &[DetectedTool], conflicts: &[ToolConflict]) -> (r:
        Vec<String>)
        ensures
            r@.len() == (if !has_named(tools@, "Git"@) {
                1int
            } else {
                0int
            }) + (if !has_named(tools@, "Docker"@) {
                1int
            } else {
                0int
            }) + (if conflicts@.len() > 0 {
                1int
            } else {
                0int
            }),
            !has_named(tools@, "Git"@) ==> r@[0]@ == "Install Git for version control"@,
            conflicts@.len() > 0 ==> r@[r@.len() - 1]@
                == "Resolve version conflicts for better stability"@,
    {
        let mut suggestions: Vec<String> = Vec::new();
        if !any_tool_named(tools, &String::from_str("Git")) {
            suggestions.push(String::from_str("Install Git for version control"));
        }
        if !any_tool_named(tools, &String::from_str("Docker")) {
            suggestions.push(String::from_str("Install Docker for containerization"));
        }
        if conflicts.len() > 0 {
            suggestions.push(String::from_str("Resolve version conflicts for better stability"));
        }
        suggestions
    }

    /// A first description of what a repository needs: a web stack
    /// with a relational database, to be refined once repository
    /// probing is wired up.
    pub fn analyze_repository(&self, url: &String) -> (r: Result<RepositoryAnalysis, String>)
        ensures
            r matches Ok(a) && ({
                &&& a.url@ == url@
                &&& crate::strings::strs_view(a.detected_languages@) == seq![
                    "JavaScript"@,
                    "TypeScript"@,
                ]
                &&& crate::strings::strs_view(a.frameworks@) == seq!["React"@, "Node.js"@]
                &&& crate::strings::strs_view(a.databases@) == seq!["PostgreSQL"@]
                &&& crate::strings::strs_view(a.services@) == seq!["Redis"@]
                &&& a.tools_needed@.len() == 2
                &&& a.tools_needed@[0].name@ == "Node.js"@
                &&& a.tools_needed@[1].name@ == "PostgreSQL"@
                &&& a.estimated_setup_time == 15
                &&& a.complexity_score == 6
                &&& a.suggested_workspace_type@ == "web-dev"@
            }),
    {
        let mut detected_languages: Vec<String> = Vec::new();
        detected_languages.push(String::from_str("JavaScript"));
        detected_languages.push(String::from_str("TypeScript"));
        let mut frameworks: Vec<String> = Vec::new();
        frameworks.push(String::from_str("React"));
        frameworks.push(String::from_str("Node.js"));
        let mut databases: Vec<String> = Vec::new();
        databases.push(String::from_str("PostgreSQL"));
        let mut services: Vec<String> = Vec::new();
        services.push(String::from_str("Redis"));
        let mut tools_needed: Vec<ToolRequirement> = Vec::new();
        tools_needed.push(
            ToolRequirement {
                name: String::from_str("Node.js"),
                tool_type: String::from_str("language"),
                version: Some(String::from_str("18.x")),
                required: true,
                alternatives: Vec::new(),
            },
        );
        let mut postgres_alternatives: Vec<String> = Vec::new();
        postgres_alternatives.push(String::from_str("MySQL"));
        tools_needed.push(
            ToolRequirement {
                name: String::from_str("PostgreSQL"),
                tool_type: String::from_str("database"),
                version: Some(String::from_str("15.x")),
                required: true,
                alternatives: postgres_alternatives,
            },
        );
        let r = RepositoryAnalysis {
            url: url.clone(),
            detected_languages,
            frameworks,
            databases,
            services,
            tools_needed,
            estimated_setup_time: 15,
            complexity_score: 6,
            suggested_workspace_type: String::from_str("web-dev"),
        };
        proof {
            assert(crate::strings::strs_view(r.detected_languages@) =~= seq![
                "JavaScript"@,
                "TypeScript"@,
            ]);
            assert(crate::strings::strs_view(r.frameworks@) =~= seq!["React"@, "Node.js"@]);
            assert(crate::strings::strs_view(r.databases@) =~= seq!["PostgreSQL"@]);
            assert(crate::strings::strs_view(r.services@) =~= seq!["Redis"@]);
        }
        Ok(r)
    }
}

} // verus!
