//! The prompts the conductor agent sends: planning, exploration, analysis,
//! decomposition, phase detailing and guidance. Each prompt is stated as a
//! text over its inputs, and built exactly so.
//!
//! The prompts name the project's instruction file; its name is a parameter,
//! as the file is looked up outside this library.
use crate::state::{AnalysisDirective, AnalysisResult, GuidanceInput, GuidanceMessage, Phase, PhaseStatus, Task};
use crate::task_store::status_name;
use crate::text::{
    ceil_boundary, decimal, floor_boundary, join, join_strings, push_decimal, push_str, truncate_str,
    truncate_str_tail, views,
};
use vstd::prelude::*;
use vstd::string::StringSliceAdditionalSpecFns;
use vstd::utf8::*;

verus! {

broadcast use vstd::string::group_string_axioms;

/// The characters of an optional borrowed string.
pub open spec fn opt_str(o: Option<&str>) -> Option<Seq<char>> {
    match o {
        Some(s) => Some(s@),
        None => None,
    }
}

/// Each entry wrapped in backticks.
pub open spec fn backticked(s: Seq<Seq<char>>) -> Seq<Seq<char>> {
    Seq::new(s.len(), |i: int| "`"@ + s[i] + "`"@)
}

/// The entries of `v`, each in backticks, joined with commas.
pub fn backticked_list(v: &Vec<String>) -> (r: String)
    ensures
        r@ == join(backticked(views(v@)), ", "@),
{
    let mut parts: Vec<String> = Vec::new();
    let mut k: usize = 0;
    while k < v.len()
        invariant
            k <= v.len(),
            views(parts@) == backticked(views(v@.take(k as int))),
        decreases v.len() - k,
    {
        let mut p = String::new();
        push_str(&mut p, "`");
        push_str(&mut p, v[k].as_str());
        push_str(&mut p, "`");
        let ghost before = views(parts@);
        let ghost pv = p@;
        parts.push(p);
        assert(views(parts@) =~= before.push(pv));
        assert(backticked(views(v@.take(k + 1))) =~= backticked(views(v@.take(k as int))).push(pv));
        k = k + 1;
    }
    assert(v@.take(v.len() as int) =~= v@);
    join_strings(&parts, ", ")
}

/// The sections of the analysts' reports.
pub open spec fn analysis_reports(results: Seq<AnalysisResult>) -> Seq<Seq<char>> {
    Seq::new(results.len(), |i: int| analysis_report(results[i]))
}

/// The analysts' reports, one section each, separated by blank lines.
pub fn analysis_section(results: &[AnalysisResult]) -> (r: String)
    ensures
        r@ == join(analysis_reports(results@), "\n\n"@),
{
    let mut parts: Vec<String> = Vec::new();
    let mut k: usize = 0;
    while k < results.len()
        invariant
            k <= results.len(),
            views(parts@) == analysis_reports(results@.take(k as int)),
        decreases results.len() - k,
    {
        let mut p = String::new();
        push_analysis_report(&mut p, &results[k]);
        let ghost before = views(parts@);
        let ghost pv = p@;
        assert(pv =~= analysis_report(results@[k as int]));
        parts.push(p);
        assert(views(parts@) =~= before.push(pv));
        assert(analysis_reports(results@.take(k + 1)) =~= analysis_reports(results@.take(k as int)).push(pv));
        k = k + 1;
    }
    assert(results@.take(results.len() as int) =~= results@);
    join_strings(&parts, "\n\n")
}

/// The first `n` bytes of `s` at most, cut back to a character boundary.
pub open spec fn head_cut(s: Seq<char>, n: nat) -> Seq<char> {
    let b = encode_utf8(s);
    if b.len() <= n { s } else { decode_utf8(b.subrange(0, floor_boundary(b, n as int))) }
}

/// The last `n` bytes of `s` at most, cut forward to a character boundary.
pub open spec fn tail_cut(s: Seq<char>, n: nat) -> Seq<char> {
    let b = encode_utf8(s);
    if b.len() <= n { s } else { decode_utf8(b.subrange(ceil_boundary(b, b.len() - n), b.len() as int)) }
}

/// `s` when it fits in `n` bytes, else a note and its last `n` bytes.
pub open spec fn tail_budget(s: Seq<char>, n: nat) -> Seq<char> {
    if encode_utf8(s).len() > n {
        "[...earlier entries truncated]\n\n"@ + tail_cut(s, n)
    } else {
        s
    }
}

fn head_cut_text(s: &str, n: usize) -> (r: String)
    ensures
        r@ == head_cut(s@, n as nat),
{
    let t = truncate_str(s, n);
    proof {
        encode_utf8_decode_utf8(t@);
    }
    let mut out = String::new();
    push_str(&mut out, t);
    assert(out@ =~= t@);
    out
}

fn tail_budget_text(s: &str, n: usize) -> (r: String)
    ensures
        r@ == tail_budget(s@, n as nat),
{
    let len = s.as_bytes().len();
    let mut out = String::new();
    if len > n {
        push_str(&mut out, "[...earlier entries truncated]\n\n");
        let t = truncate_str_tail(s, n);
        proof {
            encode_utf8_decode_utf8(t@);
        }
        push_str(&mut out, t);
    } else {
        push_str(&mut out, s);
    }
    assert(out@ =~= tail_budget(s@, n as nat));
    out
}

/// One task line of a completed phase.
pub open spec fn completed_task_line(t: Task) -> Seq<char> {
    "- "@ + t.title@ + " ["@ + status_name(t.status) + "]"@ + match t.result {
        Some(r) => ": "@ + head_cut(r.summary@, 150),
        None => Seq::empty(),
    }
}

/// The task lines of a completed phase.
pub open spec fn completed_task_lines(tasks: Seq<Task>) -> Seq<Seq<char>> {
    Seq::new(tasks.len(), |i: int| completed_task_line(tasks[i]))
}

/// The section of one completed phase.
pub open spec fn completed_phase_section(p: Phase) -> Seq<char> {
    "### "@ + p.title@ + "\n"@ + p.description@ + "\nTasks:\n"@ + join(completed_task_lines(p.tasks@), "\n"@)
}

/// The sections of the completed phases.
pub open spec fn completed_phase_sections(ps: Seq<Phase>) -> Seq<Seq<char>> {
    Seq::new(ps.len(), |i: int| completed_phase_section(ps[i]))
}

/// What the conductor is reminded of about the phases already done.
pub open spec fn completed_context(ps: Seq<Phase>) -> Seq<char> {
    if ps.len() == 0 {
        Seq::empty()
    } else {
        "## Completed Phases\n"@ + join(completed_phase_sections(ps), "\n\n"@) + "\n\n"@
    }
}

fn completed_task_line_text(t: &Task) -> (r: String)
    ensures
        r@ == completed_task_line(*t),
{
    let mut out = String::new();
    push_str(&mut out, "- ");
    push_str(&mut out, t.title.as_str());
    push_str(&mut out, " [");
    push_str(&mut out, crate::task_store::status_name_of(t.status));
    push_str(&mut out, "]");
    match &t.result {
        Some(r) => {
            push_str(&mut out, ": ");
            let c = head_cut_text(r.summary.as_str(), 150);
            push_str(&mut out, c.as_str());
        },
        None => {},
    }
    proof {
        reveal_strlit("");
    }
    assert(out@ =~= completed_task_line(*t));
    out
}

fn completed_phase_text(p: &Phase) -> (r: String)
    ensures
        r@ == completed_phase_section(*p),
{
    let mut lines: Vec<String> = Vec::new();
    let mut k: usize = 0;
    while k < p.tasks.len()
        invariant
            k <= p.tasks.len(),
            views(lines@) == completed_task_lines(p.tasks@.take(k as int)),
        decreases p.tasks.len() - k,
    {
        let l = completed_task_line_text(&p.tasks[k]);
        let ghost before = views(lines@);
        let ghost lv = l@;
        lines.push(l);
        assert(views(lines@) =~= before.push(lv));
        assert(completed_task_lines(p.tasks@.take(k + 1)) =~= completed_task_lines(p.tasks@.take(k as int)).push(lv));
        k = k + 1;
    }
    assert(p.tasks@.take(p.tasks.len() as int) =~= p.tasks@);
    let mut out = String::new();
    push_str(&mut out, "### ");
    push_str(&mut out, p.title.as_str());
    push_str(&mut out, "\n");
    push_str(&mut out, p.description.as_str());
    push_str(&mut out, "\nTasks:\n");
    let j = join_strings(&lines, "\n");
    push_str(&mut out, j.as_str());
    assert(out@ =~= completed_phase_section(*p));
    out
}

fn completed_context_text(ps: &[Phase]) -> (r: String)
    ensures
        r@ == completed_context(ps@),
{
    let mut out = String::new();
    if ps.len() == 0 {
        return out;
    }
    let mut parts: Vec<String> = Vec::new();
    let mut k: usize = 0;
    while k < ps.len()
        invariant
            k <= ps.len(),
            views(parts@) == completed_phase_sections(ps@.take(k as int)),
        decreases ps.len() - k,
    {
        let s = completed_phase_text(&ps[k]);
        let ghost before = views(parts@);
        let ghost sv = s@;
        parts.push(s);
        assert(views(parts@) =~= before.push(sv));
        assert(completed_phase_sections(ps@.take(k + 1)) =~= completed_phase_sections(ps@.take(k as int)).push(sv));
        k = k + 1;
    }
    assert(ps@.take(ps.len() as int) =~= ps@);
    push_str(&mut out, "## Completed Phases\n");
    let j = join_strings(&parts, "\n\n");
    push_str(&mut out, j.as_str());
    push_str(&mut out, "\n\n");
    assert(out@ =~= completed_context(ps@));
    out
}

/// The user's guidance messages, one line each with its time.
pub open spec fn guidance_lines(msgs: Seq<GuidanceMessage>) -> Seq<Seq<char>> {
    Seq::new(msgs.len(), |i: int| "["@ + msgs[i].timestamp@ + "] "@ + msgs[i].message@)
}

fn guidance_messages_text(msgs: &Vec<GuidanceMessage>) -> (r: String)
    ensures
        r@ == join(guidance_lines(msgs@), "\n"@),
{
    let mut parts: Vec<String> = Vec::new();
    let mut k: usize = 0;
    while k < msgs.len()
        invariant
            k <= msgs.len(),
            views(parts@) == guidance_lines(msgs@.take(k as int)),
        decreases msgs.len() - k,
    {
        let mut p = String::new();
        push_str(&mut p, "[");
        push_str(&mut p, msgs[k].timestamp.as_str());
        push_str(&mut p, "] ");
        push_str(&mut p, msgs[k].message.as_str());
        let ghost before = views(parts@);
        let ghost pv = p@;
        parts.push(p);
        assert(views(parts@) =~= before.push(pv));
        assert(guidance_lines(msgs@.take(k + 1)) =~= guidance_lines(msgs@.take(k as int)).push(pv));
        k = k + 1;
    }
    assert(msgs@.take(msgs.len() as int) =~= msgs@);
    join_strings(&parts, "\n")
}

/// The project-conventions section of the planning prompt (absent without instructions).
pub open spec fn plan_conventions(instr: Seq<char>, file: Seq<char>) -> Seq<char> {
    if instr.len() > 0 {
        "## Project Conventions & Instructions\nThe following is from the project's "@ + file + " — musicians MUST follow these conventions:\n\n"@ + instr + "\n\n---\n\n"@
    } else {
        Seq::empty()
    }
}

fn push_plan_conventions(out: &mut String, instr: &str, file: &str)
    ensures
        final(out)@ == old(out)@ + plan_conventions(instr@, file@),
{
    let ghost start = out@;
    if !instr.is_empty() {
        push_str(out, "## Project Conventions & Instructions\nThe following is from the project's ");
        push_str(out, file);
        push_str(out, " — musicians MUST follow these conventions:\n\n");
        push_str(out, instr);
        push_str(out, "\n\n---\n\n");
    } else {
        proof { assert(old(out)@ + Seq::<char>::empty() =~= old(out)@); }
    }
    proof {
        reveal_strlit("");
    }
    assert(out@ =~= start + plan_conventions(instr@, file@));
}

/// The reference-session section of the planning prompt (absent without one).
pub open spec fn plan_reference(reference: Option<Seq<char>>) -> Seq<char> {
    if reference is Some {
        "## Reference Session (previous work to build upon)\n"@ + "The user wants you to analyse and build upon work from a previous session. Use this context to understand what was already done, what succeeded, what failed, and what can be improved.\n"@ + "\n"@ + reference->0 + "\n\n---\n\n"@
    } else {
        Seq::empty()
    }
}

fn push_plan_reference(out: &mut String, reference: Option<&str>)
    ensures
        final(out)@ == old(out)@ + plan_reference(opt_str(reference)),
{
    let ghost start = out@;
    if let Some(ctx) = reference {
        push_str(out, "## Reference Session (previous work to build upon)\n");
        push_str(out, "The user wants you to analyse and build upon work from a previous session. Use this context to understand what was already done, what succeeded, what failed, and what can be improved.\n");
        push_str(out, "\n");
        push_str(out, ctx);
        push_str(out, "\n\n---\n\n");
    } else {
        proof { assert(old(out)@ + Seq::<char>::empty() =~= old(out)@); }
    }
    proof {
        reveal_strlit("");
    }
    assert(out@ =~= start + plan_reference(opt_str(reference)));
}

/// The prompt that asks the conductor for a complete plan.
pub open spec fn plan_prompt_text(project_path: Seq<char>, task: Seq<char>, reference: Option<Seq<char>>, instr: Seq<char>, file: Seq<char>) -> Seq<char> {
    "You are the Conductor agent in the Orchestra orchestration system. Your role is to analyze a codebase and create a detailed execution plan.\n\nPROJECT: "@ + project_path + "\nTASK: "@ + task + "\n\n"@ + plan_conventions(instr, file) + plan_reference(reference) + "## Instructions\n\n1. Explore the project structure to understand the codebase\n2. Identify the files and modules relevant to the task\n"@ + "3. Create a plan that breaks the task into independent subtasks\n4. Assign a model tier to each task based on complexity:\n"@ + "- \"opus\" for complex architectural tasks, refactors, or tasks requiring deep reasoning\n- \"sonnet\" (default) for standard implementation tasks\n"@ + "- \"haiku\" for simple/mechanical tasks (renames, adding imports, boilerplate)\n\n## Output Format\n\nYou MUST output your plan as a JSON code block at the END of your response. Format:\n"@ + "\n```json\n{\n\"summary\": \"Brief description of the overall plan\",\n\"tasks\": [\n{\n\"title\": \"Short task title\",\n\"description\": \"Detailed instructions for the musician\",\n"@ + "\"why\": \"Explanation of WHY this \
        task is needed and what problem it solves\",\n\"fileScope\": [\"src/path/to/file.ts\"],\n\"dependencies\": [],\n"@ + "\"acceptanceCriteria\": [\"Criteria 1\", \"Criteria 2\"],\n\"estimatedTurns\": 15,\n\"model\": \"sonnet\"\n}\n],\n\"dependencyGraph\": \"1 --> 2 --> 3\\n1 --> 4 --> 3\",\n"@ + "\"musicianAssignment\": \"M1: Tasks 1, 3\\nM2: Tasks 2\\nM3: Task 4\",\n\"learningNotes\": [\n\"Brief architectural insight about the codebase\"\n],\n\"insights\": [\n{\n"@ + "\"category\": \"architecture|pattern|concept|decision\",\n\"title\": \"Short title (max 50 chars)\",\n\"body\": \"2-3 sentence educational explanation.\"\n}\n],\n\"estimatedTokens\": 350000,\n"@ + "\"estimatedMinutes\": 45\n}\n```\n\n## Educational Insights\nGenerate 3-5 educational insights about the codebase and the approach you're taking.\n"@ + "Focus on things the user would learn by watching an expert work:\n- WHY certain architectural decisions were made (not just what they are)\n"@ + "- HOW different parts of the system connect and depend on each other\n- WHAT trade-offs were considered and why this approach was chosen\n"@ + "- PATTERNS that are reusable knowledge beyond this specific task\n\nMake insights specific to THIS codebase — reference actual files, types, and conventions.\n"@ + "Avoid generic programming advice. Teach the user something they'd only learn by deeply reading the code.\n\nCRITICAL JSON RULES:\n"@ + "- Output ONLY valid JSON inside the ```json fences — no comments, no trailing commas\n- Use double quotes for all keys and string values (standard JSON, not JavaScript)\n"@ + "- Ensure the JSON block is COMPLETE — do not truncate\n- The JSON block must be the LAST thing in your response\n\nIMPORTANT:\n"@ + "- dependencies is an array of task INDICES (0-based) that must complete before this \
        task starts\n- fileScope should minimize overlap between tasks to prevent merge conflicts\n"@ + "- Each task's \"why\" should explain the reasoning, not just restate the task\n- learningNotes should contain project-specific insights, not generic advice\n"@ + "- Keep tasks focused — a musician should be able to complete one in 10-30 turns\n"@ + "- model should reflect task complexity: \"opus\" for hard tasks, \"haiku\" for trivial ones, \"sonnet\" for everything else"@
}

#[verifier::rlimit(30)]
fn push_plan_prompt_text(out: &mut String, project_path: &str, task_description: &str, reference_session_context: Option<&str>, project_instructions: &str, instructions_file: &str)
    ensures
        final(out)@ == old(out)@ + plan_prompt_text(project_path@, task_description@, opt_str(reference_session_context), project_instructions@, instructions_file@),
{
    let ghost start = out@;
    push_str(out, "You are the Conductor agent in the Orchestra orchestration system. Your role is to analyze a codebase and create a detailed execution plan.\n\nPROJECT: ");
    push_str(out, project_path);
    push_str(out, "\nTASK: ");
    push_str(out, task_description);
    push_str(out, "\n\n");
    push_plan_conventions(out, project_instructions, instructions_file);
    push_plan_reference(out, reference_session_context);
    push_str(out, "## Instructions\n\n1. Explore the project structure to understand the codebase\n2. Identify the files and modules relevant to the task\n");
    push_str(out, "3. Create a plan that breaks the task into independent subtasks\n4. Assign a model tier to each task based on complexity:\n");
    push_str(out, "- \"opus\" for complex architectural tasks, refactors, or tasks requiring deep reasoning\n- \"sonnet\" (default) for standard implementation tasks\n");
    push_str(out, "- \"haiku\" for simple/mechanical tasks (renames, adding imports, boilerplate)\n\n## Output Format\n\nYou MUST output your plan as a JSON code block at the END of your response. Format:\n");
    push_str(out, "\n```json\n{\n\"summary\": \"Brief description of the overall plan\",\n\"tasks\": [\n{\n\"title\": \"Short task title\",\n\"description\": \"Detailed instructions for the musician\",\n");
    push_str(out, "\"why\": \"Explanation of WHY this \
        task is needed and what problem it solves\",\n\"fileScope\": [\"src/path/to/file.ts\"],\n\"dependencies\": [],\n");
    push_str(out, "\"acceptanceCriteria\": [\"Criteria 1\", \"Criteria 2\"],\n\"estimatedTurns\": 15,\n\"model\": \"sonnet\"\n}\n],\n\"dependencyGraph\": \"1 --> 2 --> 3\\n1 --> 4 --> 3\",\n");
    push_str(out, "\"musicianAssignment\": \"M1: Tasks 1, 3\\nM2: Tasks 2\\nM3: Task 4\",\n\"learningNotes\": [\n\"Brief architectural insight about the codebase\"\n],\n\"insights\": [\n{\n");
    push_str(out, "\"category\": \"architecture|pattern|concept|decision\",\n\"title\": \"Short title (max 50 chars)\",\n\"body\": \"2-3 sentence educational explanation.\"\n}\n],\n\"estimatedTokens\": 350000,\n");
    push_str(out, "\"estimatedMinutes\": 45\n}\n```\n\n## Educational Insights\nGenerate 3-5 educational insights about the codebase and the approach you're taking.\n");
    push_str(out, "Focus on things the user would learn by watching an expert work:\n- WHY certain architectural decisions were made (not just what they are)\n");
    push_str(out, "- HOW different parts of the system connect and depend on each other\n- WHAT trade-offs were considered and why this approach was chosen\n");
    push_str(out, "- PATTERNS that are reusable knowledge beyond this specific task\n\nMake insights specific to THIS codebase — reference actual files, types, and conventions.\n");
    push_str(out, "Avoid generic programming advice. Teach the user something they'd only learn by deeply reading the code.\n\nCRITICAL JSON RULES:\n");
    push_str(out, "- Output ONLY valid JSON inside the ```json fences — no comments, no trailing commas\n- Use double quotes for all keys and string values (standard JSON, not JavaScript)\n");
    push_str(out, "- Ensure the JSON block is COMPLETE — do not truncate\n- The JSON block must be the LAST thing in your response\n\nIMPORTANT:\n");
    push_str(out, "- dependencies is an array of task INDICES (0-based) that must complete before this \
        task starts\n- fileScope should minimize overlap between tasks to prevent merge conflicts\n");
    push_str(out, "- Each task's \"why\" should explain the reasoning, not just restate the task\n- learningNotes should contain project-specific insights, not generic advice\n");
    push_str(out, "- Keep tasks focused — a musician should be able to complete one in 10-30 turns\n");
    push_str(out, "- model should reflect task complexity: \"opus\" for hard tasks, \"haiku\" for trivial ones, \"sonnet\" for everything else");
    proof {
        reveal_strlit("");
    }
    assert(out@ =~= start + plan_prompt_text(project_path@, task_description@, opt_str(reference_session_context), project_instructions@, instructions_file@));
}

/// The project-conventions section of the exploration prompt (absent without instructions).
pub open spec fn explore_conventions(instr: Seq<char>) -> Seq<char> {
    if instr.len() > 0 {
        "## Project Conventions & Instructions\n"@ + instr + "\n\n---\n\n"@
    } else {
        Seq::empty()
    }
}

fn push_explore_conventions(out: &mut String, instr: &str)
    ensures
        final(out)@ == old(out)@ + explore_conventions(instr@),
{
    let ghost start = out@;
    if !instr.is_empty() {
        push_str(out, "## Project Conventions & Instructions\n");
        push_str(out, instr);
        push_str(out, "\n\n---\n\n");
    } else {
        proof { assert(old(out)@ + Seq::<char>::empty() =~= old(out)@); }
    }
    proof {
        reveal_strlit("");
    }
    assert(out@ =~= start + explore_conventions(instr@));
}

/// The reference-session section of the exploration prompt (absent without one).
pub open spec fn explore_reference(reference: Option<Seq<char>>) -> Seq<char> {
    if reference is Some {
        "## Reference Session\n"@ + reference->0 + "\n\n---\n\n"@
    } else {
        Seq::empty()
    }
}

fn push_explore_reference(out: &mut String, reference: Option<&str>)
    ensures
        final(out)@ == old(out)@ + explore_reference(opt_str(reference)),
{
    let ghost start = out@;
    if let Some(ctx) = reference {
        push_str(out, "## Reference Session\n");
        push_str(out, ctx);
        push_str(out, "\n\n---\n\n");
    } else {
        proof { assert(old(out)@ + Seq::<char>::empty() =~= old(out)@); }
    }
    proof {
        reveal_strlit("");
    }
    assert(out@ =~= start + explore_reference(opt_str(reference)));
}

/// The prompt that asks the conductor to explore the codebase.
pub open spec fn explore_prompt_text(project_path: Seq<char>, task: Seq<char>, reference: Option<Seq<char>>, instr: Seq<char>, file: Seq<char>) -> Seq<char> {
    "You are the Conductor agent in the Orchestra orchestration system (V2). Your role is to deeply explore and understand a codebase before planning.\n\nPROJECT: "@ + project_path + "\nTASK: "@ + task + "\n\n"@ + explore_conventions(instr) + explore_reference(reference) + "## Phase 1: Exploration\n\nThoroughly explore the project to build a mental map. You have 20 turns with read-only tools.\n\nFocus on:\n"@ + "1. Project structure — directories, key files, entry points\n2. Architecture — how modules connect, data flow patterns\n3. Relevant code — files and patterns related to the task\n"@ + "4. Conventions — naming patterns, testing approaches, build system\n5. Dependencies — what depends on what, which changes cascade\n\n"@ + "After exploring, output your findings as a JSON code block.\n\n**Analysis Decision**: Decide whether the task needs deep analysis before decomposition.\n"@ + "Set `analysisNeeded: true` if ANY of these apply:\n- The task touches 5+ distinct modules or subsystems\n- Complex data flows that you couldn't fully trace in 20 turns\n"@ + "- You expect the plan will have 20+ tasks\n- There are critical integration points you're uncertain about\n\nSet `analysisNeeded: false` if:\n- The task is localized to 1-3 modules\n"@ + "- You have high confidence after exploration\n- The task is primarily additive (new files, not modifying existing flows)\n\n"@ + "When `analysisNeeded: true`, include `analysisDirectives` — specific questions for Opus-level analysts to investigate in parallel.\n\n```json\n{\n"@ + "\"summary\": \"Brief architectural summary of the project\",\n\"modules\": [\n{\n\"path\": \"src/module/\",\n\"purpose\": \"What this module does\",\n\"keyFiles\": [\"src/module/main.ts\"],\n"@ + "\"dependencies\": [\"src/other/\"]\n}\n],\n\"patterns\": [\"Pattern 1 observed in the codebase\"],\n\"conventions\": [\"Convention 1 from "@ + file + " or discovered\"],\n\"analysisNeeded\": false,\n\"analysisDirectives\": []\n}\n```\n\nCRITICAL JSON RULES:\n"@ + "- Output ONLY valid JSON inside the ```json fences — no comments, no trailing commas\n- Use double quotes for all keys and string values\n"@ + "- If `analysisNeeded` is false, omit `analysisDirectives` or set it to an empty array\n- The JSON block must be the LAST thing in your response"@
}

#[verifier::rlimit(30)]
fn push_explore_prompt_text(out: &mut String, project_path: &str, task_description: &str, reference_session_context: Option<&str>, project_instructions: &str, instructions_file: &str)
    ensures
        final(out)@ == old(out)@ + explore_prompt_text(project_path@, task_description@, opt_str(reference_session_context), project_instructions@, instructions_file@),
{
    let ghost start = out@;
    push_str(out, "You are the Conductor agent in the Orchestra orchestration system (V2). Your role is to deeply explore and understand a codebase before planning.\n\nPROJECT: ");
    push_str(out, project_path);
    push_str(out, "\nTASK: ");
    push_str(out, task_description);
    push_str(out, "\n\n");
    push_explore_conventions(out, project_instructions);
    push_explore_reference(out, reference_session_context);
    push_str(out, "## Phase 1: Exploration\n\nThoroughly explore the project to build a mental map. You have 20 turns with read-only tools.\n\nFocus on:\n");
    push_str(out, "1. Project structure — directories, key files, entry points\n2. Architecture — how modules connect, data flow patterns\n3. Relevant code — files and patterns related to the task\n");
    push_str(out, "4. Conventions — naming patterns, testing approaches, build system\n5. Dependencies — what depends on what, which changes cascade\n\n");
    push_str(out, "After exploring, output your findings as a JSON code block.\n\n**Analysis Decision**: Decide whether the task needs deep analysis before decomposition.\n");
    push_str(out, "Set `analysisNeeded: true` if ANY of these apply:\n- The task touches 5+ distinct modules or subsystems\n- Complex data flows that you couldn't fully trace in 20 turns\n");
    push_str(out, "- You expect the plan will have 20+ tasks\n- There are critical integration points you're uncertain about\n\nSet `analysisNeeded: false` if:\n- The task is localized to 1-3 modules\n");
    push_str(out, "- You have high confidence after exploration\n- The task is primarily additive (new files, not modifying existing flows)\n\n");
    push_str(out, "When `analysisNeeded: true`, include `analysisDirectives` — specific questions for Opus-level analysts to investigate in parallel.\n\n```json\n{\n");
    push_str(out, "\"summary\": \"Brief architectural summary of the project\",\n\"modules\": [\n{\n\"path\": \"src/module/\",\n\"purpose\": \"What this module does\",\n\"keyFiles\": [\"src/module/main.ts\"],\n");
    push_str(out, "\"dependencies\": [\"src/other/\"]\n}\n],\n\"patterns\": [\"Pattern 1 observed in the codebase\"],\n\"conventions\": [\"Convention 1 from ");
    push_str(out, instructions_file);
    push_str(out, " or discovered\"],\n\"analysisNeeded\": false,\n\"analysisDirectives\": []\n}\n```\n\nCRITICAL JSON RULES:\n");
    push_str(out, "- Output ONLY valid JSON inside the ```json fences — no comments, no trailing commas\n- Use double quotes for all keys and string values\n");
    push_str(out, "- If `analysisNeeded` is false, omit `analysisDirectives` or set it to an empty array\n- The JSON block must be the LAST thing in your response");
    proof {
        reveal_strlit("");
    }
    assert(out@ =~= start + explore_prompt_text(project_path@, task_description@, opt_str(reference_session_context), project_instructions@, instructions_file@));
}

/// The project-conventions section of an analyst prompt (absent without instructions).
pub open spec fn analyst_conventions(instr: Seq<char>) -> Seq<char> {
    if instr.len() > 0 {
        "## Project Conventions\n"@ + instr + "\n\n---\n\n"@
    } else {
        Seq::empty()
    }
}

fn push_analyst_conventions(out: &mut String, instr: &str)
    ensures
        final(out)@ == old(out)@ + analyst_conventions(instr@),
{
    let ghost start = out@;
    if !instr.is_empty() {
        push_str(out, "## Project Conventions\n");
        push_str(out, instr);
        push_str(out, "\n\n---\n\n");
    } else {
        proof { assert(old(out)@ + Seq::<char>::empty() =~= old(out)@); }
    }
    proof {
        reveal_strlit("");
    }
    assert(out@ =~= start + analyst_conventions(instr@));
}

/// The prompt that sends an analyst to investigate one area.
pub open spec fn analyst_prompt_text(d: AnalysisDirective, summary: Seq<char>, project_path: Seq<char>, instr: Seq<char>) -> Seq<char> {
    "You are an Analyst agent in the Orchestra system. Your job is to deeply investigate a specific area of the codebase and report findings.\n\nPROJECT: "@ + project_path + "\n\n"@ + analyst_conventions(instr) + "## Codebase Context\n"@ + summary + "\n\n## Your Investigation Area: "@ + d.area@ + "\n\n**Question**: "@ + d.question@ + "\n\n**Starting Points**: "@ + join(backticked(views(d.file_hints@)), ", "@) + "\n\n## Instructions\n\n1. Read the starting point files thoroughly\n2. Trace data flows, call chains, and dependencies\n3. Look for patterns, edge cases, and potential risks\n"@ + "4. Identify all files that would need changes related to this area\n5. Note any conventions or constraints that implementers must follow\n\n"@ + "Be thorough — your findings will be used to create detailed implementation tasks.\n\n## Output\n\nAfter investigating, output your findings as a JSON code block:\n\n```json\n{\n"@ + "\"findings\": \"Detailed markdown findings\",\n\"keyFiles\": [\"src/path/to/important.ts\"],\n\"patterns\": [\"Pattern 1 observed in this area\"],\n\"risks\": [\"Risk 1\"]\n}\n```\n\n"@ + "CRITICAL JSON RULES:\n- Output ONLY valid JSON inside the ```json fences — no comments, no trailing commas\n- Use double quotes for all keys and string values\n"@ + "- The JSON block must be the LAST thing in your response"@
}

#[verifier::rlimit(30)]
fn push_analyst_prompt_text(out: &mut String, directive: &AnalysisDirective, codebase_summary: &str, project_path: &str, project_instructions: &str)
    ensures
        final(out)@ == old(out)@ + analyst_prompt_text(*directive, codebase_summary@, project_path@, project_instructions@),
{
    let ghost start = out@;
    push_str(out, "You are an Analyst agent in the Orchestra system. Your job is to deeply investigate a specific area of the codebase and report findings.\n\nPROJECT: ");
    push_str(out, project_path);
    push_str(out, "\n\n");
    push_analyst_conventions(out, project_instructions);
    push_str(out, "## Codebase Context\n");
    push_str(out, codebase_summary);
    push_str(out, "\n\n## Your Investigation Area: ");
    push_str(out, directive.area.as_str());
    push_str(out, "\n\n**Question**: ");
    push_str(out, directive.question.as_str());
    push_str(out, "\n\n**Starting Points**: ");
    let hints = backticked_list(&directive.file_hints); push_str(out, hints.as_str());
    push_str(out, "\n\n## Instructions\n\n1. Read the starting point files thoroughly\n2. Trace data flows, call chains, and dependencies\n3. Look for patterns, edge cases, and potential risks\n");
    push_str(out, "4. Identify all files that would need changes related to this area\n5. Note any conventions or constraints that implementers must follow\n\n");
    push_str(out, "Be thorough — your findings will be used to create detailed implementation tasks.\n\n## Output\n\nAfter investigating, output your findings as a JSON code block:\n\n```json\n{\n");
    push_str(out, "\"findings\": \"Detailed markdown findings\",\n\"keyFiles\": [\"src/path/to/important.ts\"],\n\"patterns\": [\"Pattern 1 observed in this area\"],\n\"risks\": [\"Risk 1\"]\n}\n```\n\n");
    push_str(out, "CRITICAL JSON RULES:\n- Output ONLY valid JSON inside the ```json fences — no comments, no trailing commas\n- Use double quotes for all keys and string values\n");
    push_str(out, "- The JSON block must be the LAST thing in your response");
    proof {
        reveal_strlit("");
    }
    assert(out@ =~= start + analyst_prompt_text(*directive, codebase_summary@, project_path@, project_instructions@));
}

/// The prompt that asks the conductor to split the task into phases.
pub open spec fn decompose_prompt_text(task: Seq<char>) -> Seq<char> {
    "## Phase 2: Decomposition\n\nBased on your exploration, break the task into sequential PHASES. Each phase contains tasks that can run in parallel.\n\nTASK: "@ + task + "\n\nKey principles:\n- Phases execute SEQUENTIALLY — Phase 2 starts only after Phase 1 completes and is reviewed\n- Tasks WITHIN a phase execute in PARALLEL (with dependency ordering)\n"@ + "- Earlier phases should lay foundations; later phases build on them\n- If a later phase depends on decisions made in an earlier phase, keep them separate\n"@ + "- Only detail the FIRST phase's tasks fully — later phases stay as skeletons\n\nOutput as a JSON code block:\n\n```json\n{\n\"summary\": \"Overall approach summary\",\n\"phases\": [\n{\n"@ + "\"title\": \"Phase 1 title\",\n\"description\": \"What this phase accomplishes\",\n\"tasks\": [\n{\n\"title\": \"Task title\",\n\"description\": \"Detailed instructions for the musician\",\n"@ + "\"why\": \"Why this \
        task is needed\",\n\"fileScope\": [\"src/path/to/file.ts\"],\n\"dependencies\": [],\n\"acceptanceCriteria\": [\"Criteria 1\"],\n\"estimatedTurns\": 15,\n\"model\": \"sonnet\"\n}\n]\n},\n{\n"@ + "\"title\": \"Phase 2 title (skeleton)\",\n\"description\": \"What this phase will accomplish — details TBD after Phase 1\",\n\"tasks\": []\n}\n],\n"@ + "\"learningNotes\": [\"Insight about the codebase\"],\n\"insights\": [\n{\n\"category\": \"architecture|pattern|concept|decision\",\n\"title\": \"Short title\",\n\"body\": \"Educational explanation\"\n}\n"@ + "],\n\"estimatedTokens\": 350000,\n\"estimatedMinutes\": 45\n}\n```\n\n"@ + "CRITICAL: Only the FIRST phase should have fully detailed tasks. Later phases should have title + description but empty tasks array — they will be detailed when their turn comes.\n\n"@ + "CRITICAL JSON RULES:\n- Output ONLY valid JSON inside the ```json fences\n- Use double quotes, no trailing commas\n- The JSON block must be the LAST thing in your response"@
}

#[verifier::rlimit(30)]
fn push_decompose_prompt_text(out: &mut String, task_description: &str)
    ensures
        final(out)@ == old(out)@ + decompose_prompt_text(task_description@),
{
    let ghost start = out@;
    push_str(out, "## Phase 2: Decomposition\n\nBased on your exploration, break the task into sequential PHASES. Each phase contains tasks that can run in parallel.\n\nTASK: ");
    push_str(out, task_description);
    push_str(out, "\n\nKey principles:\n- Phases execute SEQUENTIALLY — Phase 2 starts only after Phase 1 completes and is reviewed\n- Tasks WITHIN a phase execute in PARALLEL (with dependency ordering)\n");
    push_str(out, "- Earlier phases should lay foundations; later phases build on them\n- If a later phase depends on decisions made in an earlier phase, keep them separate\n");
    push_str(out, "- Only detail the FIRST phase's tasks fully — later phases stay as skeletons\n\nOutput as a JSON code block:\n\n```json\n{\n\"summary\": \"Overall approach summary\",\n\"phases\": [\n{\n");
    push_str(out, "\"title\": \"Phase 1 title\",\n\"description\": \"What this phase accomplishes\",\n\"tasks\": [\n{\n\"title\": \"Task title\",\n\"description\": \"Detailed instructions for the musician\",\n");
    push_str(out, "\"why\": \"Why this \
        task is needed\",\n\"fileScope\": [\"src/path/to/file.ts\"],\n\"dependencies\": [],\n\"acceptanceCriteria\": [\"Criteria 1\"],\n\"estimatedTurns\": 15,\n\"model\": \"sonnet\"\n}\n]\n},\n{\n");
    push_str(out, "\"title\": \"Phase 2 title (skeleton)\",\n\"description\": \"What this phase will accomplish — details TBD after Phase 1\",\n\"tasks\": []\n}\n],\n");
    push_str(out, "\"learningNotes\": [\"Insight about the codebase\"],\n\"insights\": [\n{\n\"category\": \"architecture|pattern|concept|decision\",\n\"title\": \"Short title\",\n\"body\": \"Educational explanation\"\n}\n");
    push_str(out, "],\n\"estimatedTokens\": 350000,\n\"estimatedMinutes\": 45\n}\n```\n\n");
    push_str(out, "CRITICAL: Only the FIRST phase should have fully detailed tasks. Later phases should have title + description but empty tasks array — they will be detailed when their turn comes.\n\n");
    push_str(out, "CRITICAL JSON RULES:\n- Output ONLY valid JSON inside the ```json fences\n- Use double quotes, no trailing commas\n- The JSON block must be the LAST thing in your response");
    proof {
        reveal_strlit("");
    }
    assert(out@ =~= start + decompose_prompt_text(task_description@));
}

/// The section of one analysis report.
pub open spec fn analysis_report(r: AnalysisResult) -> Seq<char> {
    "### "@ + r.area@ + "\n"@ + r.findings@ + "\n\n**Key files**: "@ + join(views(r.key_files@), ", "@) + "\n**Patterns**: "@ + join(views(r.patterns@), "; "@) + "\n**Risks**: "@ + join(views(r.risks@), "; "@)
}

fn push_analysis_report(out: &mut String, r: &AnalysisResult)
    ensures
        final(out)@ == old(out)@ + analysis_report(*r),
{
    let ghost start = out@;
    push_str(out, "### ");
    push_str(out, r.area.as_str());
    push_str(out, "\n");
    push_str(out, r.findings.as_str());
    push_str(out, "\n\n**Key files**: ");
    let k = join_strings(&r.key_files, ", "); push_str(out, k.as_str());
    push_str(out, "\n**Patterns**: ");
    let p = join_strings(&r.patterns, "; "); push_str(out, p.as_str());
    push_str(out, "\n**Risks**: ");
    let x = join_strings(&r.risks, "; "); push_str(out, x.as_str());
    proof {
        reveal_strlit("");
    }
    assert(out@ =~= start + analysis_report(*r));
}

/// The decomposition prompt that carries the analysts' reports.
pub open spec fn decompose_with_analysis_text(task: Seq<char>, results: Seq<AnalysisResult>) -> Seq<char> {
    "## Phase 2: Decomposition (with Deep Analysis)\n\n## Analysis Reports\n"@ + "The following areas were deeply investigated by specialist analysts. Use these findings to create a more granular, well-informed plan.\n\n"@ + join(analysis_reports(results), "\n\n"@) + "\n\n---\n\nBased on your exploration AND the deep analysis above, break the task into sequential PHASES. Each phase contains tasks that can run in parallel.\n\nTASK: "@ + task + "\n\nKey principles:\n- Phases execute SEQUENTIALLY — Phase 2 starts only after Phase 1 completes and is reviewed\n- Tasks WITHIN a phase execute in PARALLEL (with dependency ordering)\n"@ + "- Earlier phases should lay foundations; later phases build on them\n- If a later phase depends on decisions made in an earlier phase, keep them separate\n"@ + "- Only detail the FIRST phase's tasks fully — later phases stay as skeletons\n- USE the analysis findings to create more specific, targeted tasks with precise file scopes\n"@ + "- ADDRESS the identified risks in your task descriptions and acceptance criteria\n\nOutput as a JSON code block:\n\n```json\n{\n\"summary\": \"Overall approach summary\",\n\"phases\": [\n{\n"@ + "\"title\": \"Phase 1 title\",\n\"description\": \"What this phase accomplishes\",\n\"tasks\": [\n{\n\"title\": \"Task title\",\n\"description\": \"Detailed instructions for the musician\",\n"@ + "\"why\": \"Why this \
        task is needed\",\n\"fileScope\": [\"src/path/to/file.ts\"],\n\"dependencies\": [],\n\"acceptanceCriteria\": [\"Criteria 1\"],\n\"estimatedTurns\": 15,\n\"model\": \"sonnet\"\n}\n]\n}\n],\n"@ + "\"learningNotes\": [\"Insight about the codebase\"],\n\"insights\": [\n{\n\"category\": \"architecture|pattern|concept|decision\",\n\"title\": \"Short title\",\n\"body\": \"Educational explanation\"\n}\n"@ + "],\n\"estimatedTokens\": 350000,\n\"estimatedMinutes\": 45\n}\n```\n\nCRITICAL: Only the FIRST phase should have fully detailed tasks.\n\nCRITICAL JSON RULES:\n"@ + "- Output ONLY valid JSON inside the ```json fences\n- Use double quotes, no trailing commas\n- The JSON block must be the LAST thing in your response"@
}

#[verifier::rlimit(30)]
fn push_decompose_with_analysis_text(out: &mut String, task_description: &str, analysis_results: &[AnalysisResult])
    ensures
        final(out)@ == old(out)@ + decompose_with_analysis_text(task_description@, analysis_results@),
{
    let ghost start = out@;
    push_str(out, "## Phase 2: Decomposition (with Deep Analysis)\n\n## Analysis Reports\n");
    push_str(out, "The following areas were deeply investigated by specialist analysts. Use these findings to create a more granular, well-informed plan.\n\n");
    let section = analysis_section(analysis_results); push_str(out, section.as_str());
    push_str(out, "\n\n---\n\nBased on your exploration AND the deep analysis above, break the task into sequential PHASES. Each phase contains tasks that can run in parallel.\n\nTASK: ");
    push_str(out, task_description);
    push_str(out, "\n\nKey principles:\n- Phases execute SEQUENTIALLY — Phase 2 starts only after Phase 1 completes and is reviewed\n- Tasks WITHIN a phase execute in PARALLEL (with dependency ordering)\n");
    push_str(out, "- Earlier phases should lay foundations; later phases build on them\n- If a later phase depends on decisions made in an earlier phase, keep them separate\n");
    push_str(out, "- Only detail the FIRST phase's tasks fully — later phases stay as skeletons\n- USE the analysis findings to create more specific, targeted tasks with precise file scopes\n");
    push_str(out, "- ADDRESS the identified risks in your task descriptions and acceptance criteria\n\nOutput as a JSON code block:\n\n```json\n{\n\"summary\": \"Overall approach summary\",\n\"phases\": [\n{\n");
    push_str(out, "\"title\": \"Phase 1 title\",\n\"description\": \"What this phase accomplishes\",\n\"tasks\": [\n{\n\"title\": \"Task title\",\n\"description\": \"Detailed instructions for the musician\",\n");
    push_str(out, "\"why\": \"Why this \
        task is needed\",\n\"fileScope\": [\"src/path/to/file.ts\"],\n\"dependencies\": [],\n\"acceptanceCriteria\": [\"Criteria 1\"],\n\"estimatedTurns\": 15,\n\"model\": \"sonnet\"\n}\n]\n}\n],\n");
    push_str(out, "\"learningNotes\": [\"Insight about the codebase\"],\n\"insights\": [\n{\n\"category\": \"architecture|pattern|concept|decision\",\n\"title\": \"Short title\",\n\"body\": \"Educational explanation\"\n}\n");
    push_str(out, "],\n\"estimatedTokens\": 350000,\n\"estimatedMinutes\": 45\n}\n```\n\nCRITICAL: Only the FIRST phase should have fully detailed tasks.\n\nCRITICAL JSON RULES:\n");
    push_str(out, "- Output ONLY valid JSON inside the ```json fences\n- Use double quotes, no trailing commas\n- The JSON block must be the LAST thing in your response");
    proof {
        reveal_strlit("");
    }
    assert(out@ =~= start + decompose_with_analysis_text(task_description@, analysis_results@));
}

/// The prompt that asks the conductor to detail the next phase.
pub open spec fn detail_phase_text(phase: Phase, completed: Seq<Phase>) -> Seq<char> {
    "## Phase Detailing\n\n"@ + completed_context(completed) + "Now detail the tasks for the next phase:\n\n### "@ + phase.title@ + "\n"@ + phase.description@ + "\n\nCreate specific, executable tasks for this phase. Each task should be completable by a single musician in 10-30 turns.\n\nOutput as a JSON code block:\n\n```json\n{\n\"tasks\": [\n{\n"@ + "\"title\": \"Task title\",\n\"description\": \"Detailed instructions — include context from completed phases if relevant\",\n\"why\": \"Why this \
        task is needed\",\n"@ + "\"fileScope\": [\"src/path/to/file.ts\"],\n\"dependencies\": [],\n\"acceptanceCriteria\": [\"Criteria 1\"],\n\"estimatedTurns\": 15,\n\"model\": \"sonnet\"\n}\n]\n}\n```\n\nIMPORTANT:\n"@ + "- dependencies are INDICES within THIS phase's task array (0-based)\n- fileScope should minimize overlap between tasks\n"@ + "- Include any context from completed phases that musicians need\n- model: \"opus\" for complex tasks, \"haiku\" for trivial, \"sonnet\" for standard\n\nCRITICAL JSON RULES:\n"@ + "- Output ONLY valid JSON — no comments, no trailing commas\n- The JSON block must be the LAST thing in your response"@
}

#[verifier::rlimit(30)]
fn push_detail_phase_text(out: &mut String, phase: &Phase, completed_phases: &[Phase])
    ensures
        final(out)@ == old(out)@ + detail_phase_text(*phase, completed_phases@),
{
    let ghost start = out@;
    push_str(out, "## Phase Detailing\n\n");
    let c = completed_context_text(completed_phases); push_str(out, c.as_str());
    push_str(out, "Now detail the tasks for the next phase:\n\n### ");
    push_str(out, phase.title.as_str());
    push_str(out, "\n");
    push_str(out, phase.description.as_str());
    push_str(out, "\n\nCreate specific, executable tasks for this phase. Each task should be completable by a single musician in 10-30 turns.\n\nOutput as a JSON code block:\n\n```json\n{\n\"tasks\": [\n{\n");
    push_str(out, "\"title\": \"Task title\",\n\"description\": \"Detailed instructions — include context from completed phases if relevant\",\n\"why\": \"Why this \
        task is needed\",\n");
    push_str(out, "\"fileScope\": [\"src/path/to/file.ts\"],\n\"dependencies\": [],\n\"acceptanceCriteria\": [\"Criteria 1\"],\n\"estimatedTurns\": 15,\n\"model\": \"sonnet\"\n}\n]\n}\n```\n\nIMPORTANT:\n");
    push_str(out, "- dependencies are INDICES within THIS phase's task array (0-based)\n- fileScope should minimize overlap between tasks\n");
    push_str(out, "- Include any context from completed phases that musicians need\n- model: \"opus\" for complex tasks, \"haiku\" for trivial, \"sonnet\" for standard\n\nCRITICAL JSON RULES:\n");
    push_str(out, "- Output ONLY valid JSON — no comments, no trailing commas\n- The JSON block must be the LAST thing in your response");
    proof {
        reveal_strlit("");
    }
    assert(out@ =~= start + detail_phase_text(*phase, completed_phases@));
}

/// The prompt that asks the conductor to act on user guidance.
pub open spec fn guidance_prompt_text(input: GuidanceInput) -> Seq<char> {
    "Process user guidance during task execution.\n\n## User Guidance\n"@ + join(guidance_lines(input.user_messages@), "\n"@) + "\n\n## Current Task Status\n"@ + input.task_status@ + "\n\n## Shared Memory (recent)\n"@ + tail_budget(input.shared_memory@, 2000) + "\n\n## Instructions\n\nThe user has sent guidance during execution. Interpret it in context of current progress.\nYou can:\n- **addTasks**: Add new tasks to the queue\n"@ + "- **cancelTasks**: Cancel pending/queued tasks by index (NEVER cancel in_progress tasks)\n- **modifyTasks**: Modify pending task descriptions by index\n"@ + "- **guidance**: Provide general guidance text for all musicians to see\n\nBe conservative — only propose changes that clearly align with the user's intent.\n"@ + "Do NOT modify or cancel in_progress tasks.\n\nOutput as a JSON code block:\n```json\n{\n\"addTasks\": [],\n\"cancelTasks\": [],\n\"modifyTasks\": [],\n"@ + "\"guidance\": \"Optional guidance for musicians...\",\n\"insights\": []\n}\n```\n\nCRITICAL JSON RULES:\n- Output ONLY valid JSON inside the ```json fences — no comments, no trailing commas\n"@ + "- Use double quotes for all keys and string values\n- Ensure the JSON block is COMPLETE — do not truncate\n- The JSON block must be the LAST thing in your response"@
}

#[verifier::rlimit(30)]
fn push_guidance_prompt_text(out: &mut String, input: &GuidanceInput)
    ensures
        final(out)@ == old(out)@ + guidance_prompt_text(*input),
{
    let ghost start = out@;
    push_str(out, "Process user guidance during task execution.\n\n## User Guidance\n");
    let m = guidance_messages_text(&input.user_messages); push_str(out, m.as_str());
    push_str(out, "\n\n## Current Task Status\n");
    push_str(out, input.task_status.as_str());
    push_str(out, "\n\n## Shared Memory (recent)\n");
    let sm = tail_budget_text(input.shared_memory.as_str(), 2000); push_str(out, sm.as_str());
    push_str(out, "\n\n## Instructions\n\nThe user has sent guidance during execution. Interpret it in context of current progress.\nYou can:\n- **addTasks**: Add new tasks to the queue\n");
    push_str(out, "- **cancelTasks**: Cancel pending/queued tasks by index (NEVER cancel in_progress tasks)\n- **modifyTasks**: Modify pending task descriptions by index\n");
    push_str(out, "- **guidance**: Provide general guidance text for all musicians to see\n\nBe conservative — only propose changes that clearly align with the user's intent.\n");
    push_str(out, "Do NOT modify or cancel in_progress tasks.\n\nOutput as a JSON code block:\n```json\n{\n\"addTasks\": [],\n\"cancelTasks\": [],\n\"modifyTasks\": [],\n");
    push_str(out, "\"guidance\": \"Optional guidance for musicians...\",\n\"insights\": []\n}\n```\n\nCRITICAL JSON RULES:\n- Output ONLY valid JSON inside the ```json fences — no comments, no trailing commas\n");
    push_str(out, "- Use double quotes for all keys and string values\n- Ensure the JSON block is COMPLETE — do not truncate\n- The JSON block must be the LAST thing in your response");
    proof {
        reveal_strlit("");
    }
    assert(out@ =~= start + guidance_prompt_text(*input));
}


// ─── Diff entries ────────────────────────────────────────────────

/// The position of the entry with the smallest task number in `e` from
/// `i` on, the first of equals.
pub open spec fn min_from(e: Seq<(usize, String)>, i: int) -> int
    decreases e.len() - i,
{
    if i >= e.len() - 1 {
        i
    } else {
        let m = min_from(e, i + 1);
        if e[i].0 <= e[m].0 { i } else { m }
    }
}

/// The entries ordered by task number, equals kept in their order.
pub open spec fn sorted_entries(e: Seq<(usize, String)>) -> Seq<(usize, String)>
    decreases e.len(),
{
    if e.len() == 0 {
        Seq::empty()
    } else {
        let m = min_from(e, 0);
        proof {
            lemma_min_from_bound(e, 0);
        }
        seq![e[m]] + sorted_entries(e.remove(m))
    }
}

/// The smallest entry from `i` on lies at or after `i`.
pub proof fn lemma_min_from_bound(e: Seq<(usize, String)>, i: int)
    requires
        0 <= i < e.len(),
    ensures
        i <= min_from(e, i) < e.len(),
    decreases e.len() - i,
{
    if i < e.len() - 1 {
        lemma_min_from_bound(e, i + 1);
    }
}

proof fn lemma_min_from_least(e: Seq<(usize, String)>, i: int)
    requires
        0 <= i < e.len(),
    ensures
        forall|j: int| i <= j < e.len() ==> e[min_from(e, i)].0 <= #[trigger] e[j].0,
    decreases e.len() - i,
{
    if i < e.len() - 1 {
        lemma_min_from_least(e, i + 1);
    }
}

proof fn lemma_sorted_members(e: Seq<(usize, String)>)
    ensures
        sorted_entries(e).len() == e.len(),
        forall|k: int| 0 <= k < e.len() ==> e.contains(#[trigger] sorted_entries(e)[k]),
    decreases e.len(),
{
    if e.len() > 0 {
        let m = min_from(e, 0);
        lemma_min_from_bound(e, 0);
        let rest = e.remove(m);
        lemma_sorted_members(rest);
        assert forall|k: int| 0 <= k < e.len() implies e.contains(#[trigger] sorted_entries(e)[k]) by {
            if k == 0 {
                assert(sorted_entries(e)[0] == e[m]);
            } else {
                let x = sorted_entries(e)[k];
                assert(x == sorted_entries(rest)[k - 1]);
                assert(rest.contains(x));
                let j = choose|j: int| 0 <= j < rest.len() && rest[j] == x;
                if j < m {
                    assert(e[j] == x);
                } else {
                    assert(e[j + 1] == x);
                }
            }
        }
    }
}

/// The entries come out in order of task number.
pub proof fn lemma_sorted_entries_ordered(e: Seq<(usize, String)>)
    ensures
        sorted_entries(e).len() == e.len(),
        forall|a: int, b: int| 0 <= a < b < e.len() ==> sorted_entries(e)[a].0 <= sorted_entries(e)[b].0,
    decreases e.len(),
{
    lemma_sorted_members(e);
    if e.len() > 0 {
        let m = min_from(e, 0);
        lemma_min_from_bound(e, 0);
        lemma_min_from_least(e, 0);
        let rest = e.remove(m);
        lemma_sorted_entries_ordered(rest);
        lemma_sorted_members(rest);
        assert forall|a: int, b: int| 0 <= a < b < e.len() implies sorted_entries(e)[a].0 <= sorted_entries(e)[b].0 by {
            let x = sorted_entries(rest)[b - 1];
            assert(sorted_entries(e)[b] == x);
            if a == 0 {
                assert(rest.contains(x));
                let j = choose|j: int| 0 <= j < rest.len() && rest[j] == x;
                if j < m {
                    assert(e[j] == x);
                } else {
                    assert(e[j + 1] == x);
                }
            } else {
                assert(sorted_entries(e)[a] == sorted_entries(rest)[a - 1]);
            }
        }
    }
}

/// The entries of `diffs` ordered by task number.
pub fn sort_entries(diffs: &Vec<(usize, String)>) -> (r: Vec<(usize, String)>)
    ensures
        r@ == sorted_entries(diffs@),
{
    let mut rest: Vec<(usize, String)> = Vec::new();
    let mut k: usize = 0;
    while k < diffs.len()
        invariant
            k <= diffs@.len(),
            rest@ == diffs@.take(k as int),
        decreases diffs@.len() - k,
    {
        let (n, d) = &diffs[k];
        rest.push((*n, d.clone()));
        k = k + 1;
        assert(rest@ =~= diffs@.take(k as int));
    }
    assert(diffs@.take(k as int) =~= diffs@);
    let mut out: Vec<(usize, String)> = Vec::new();
    while rest.len() > 0
        invariant
            out@ + sorted_entries(rest@) == sorted_entries(diffs@),
        decreases rest@.len(),
    {
        let len = rest.len();
        let mut best: usize = len - 1;
        let mut i: usize = len - 1;
        while i > 0
            invariant
                rest@.len() == len,
                0 <= i <= best < len,
                best == min_from(rest@, i as int),
            decreases i,
        {
            i = i - 1;
            proof {
                lemma_min_from_bound(rest@, (i + 1) as int);
            }
            if rest[i].0 <= rest[best].0 {
                best = i;
            }
        }
        let ghost before = rest@;
        let item = rest.remove(best);
        assert(sorted_entries(before) == seq![item] + sorted_entries(rest@));
        assert(out@.push(item) + sorted_entries(rest@) =~= out@ + sorted_entries(before));
        out.push(item);
    }
    assert(out@ =~= out@ + sorted_entries(rest@));
    out
}

// ─── Phase review ────────────────────────────────────────────────

/// The verification verdict shown for a task.
pub open spec fn verify_label(t: Task) -> Seq<char> {
    match t.result {
        Some(r) => match r.verification_passed {
            Some(true) => "PASS"@,
            Some(false) => "FAIL"@,
            None => "N/A"@,
        },
        None => "N/A"@,
    }
}

/// The result entry of one task of the reviewed phase.
pub open spec fn review_task_entry(t: Task) -> Seq<char> {
    "Task "@ + decimal(t.index as nat) + ": "@ + t.title@ + "\nStatus: "@ + status_name(t.status)
        + "\nVerification: "@ + verify_label(t) + "\nSummary: "@ + match t.result {
            Some(r) => r.summary@,
            None => "N/A"@,
        }
}

/// The result entries of the reviewed phase's tasks.
pub open spec fn review_task_entries(ts: Seq<Task>) -> Seq<Seq<char>> {
    Seq::new(ts.len(), |i: int| review_task_entry(ts[i]))
}

/// One diff entry of a phase review.
pub open spec fn phase_diff_entry(e: (usize, String)) -> Seq<char> {
    "### Task "@ + decimal(e.0 as nat) + "\n```diff\n"@ + head_cut(e.1@, 3000) + "\n```"@
}

/// The diff entries of a phase review.
pub open spec fn phase_diff_entries(e: Seq<(usize, String)>) -> Seq<Seq<char>> {
    Seq::new(e.len(), |i: int| phase_diff_entry(e[i]))
}

/// The phases still pending, one line each.
pub open spec fn pending_lines(ps: Seq<Phase>) -> Seq<Seq<char>>
    decreases ps.len(),
{
    if ps.len() == 0 {
        Seq::empty()
    } else {
        let rest = pending_lines(ps.drop_last());
        let p = ps.last();
        if p.status == PhaseStatus::Pending { rest.push("- "@ + p.title@ + ": "@ + p.description@) } else { rest }
    }
}

/// What is said of a retry.
pub open spec fn retry_note(n: u32) -> Seq<char> {
    if n > 0 {
        "\n**NOTE**: This is retry attempt "@ + decimal(n as nat) + "/3. If the issues are minor or cosmetic, prefer \"continue\" over another retry.\n"@
    } else {
        Seq::empty()
    }
}

/// The remaining phases as the review shows them.
pub open spec fn remaining_text(ps: Seq<Phase>) -> Seq<char> {
    let r = join(pending_lines(ps), "\n"@);
    if r.len() == 0 { "None — this was the last phase"@ } else { r }
}

/// The prompt that asks the conductor to review a finished phase.
pub open spec fn phase_review_text(phase: Phase, all: Seq<Phase>, diffs: Seq<(usize, String)>, retry: u32) -> Seq<char> {
    "## Phase Review: "@ + phase.title@ + "\n"@ + retry_note(retry) + "\n### Completed Task Results\n"@
        + join(review_task_entries(phase.tasks@), "\n\n"@) + "\n\n### Git Diffs\n"@
        + join(phase_diff_entries(sorted_entries(diffs)), "\n\n"@) + "\n\n### Remaining Phases\n"@
        + remaining_text(all) + phase_review_tail()
}

/// The fixed instructions that end a phase review prompt.
pub open spec fn phase_review_tail() -> Seq<char> {
    "\n\n## Instructions\n\nReview the completed phase. Decide the next action:\n\n1. `\"continue\"` — Phase succeeded, proceed to next phase\n"@
        + "2. `\"retry_tasks\"` — Some tasks failed, retry specific ones within this phase\n3. `\"revise_remaining_phases\"` — Phase succeeded but remaining phases need adjustment\n"@
        + "4. `\"abort\"` — Critical failure, stop execution\n\nOutput as a JSON code block:\n\n```json\n{\n\"action\": \"continue|retry_tasks|revise_remaining_phases|abort\",\n"@
        + "\"taskIndices\": [0, 2],\n\"summary\": \"Explanation of the decision\",\n\"revisedPhases\": [],\n\"insights\": []\n}\n```\n\n"@
        + "For \"revise_remaining_phases\", include a `revisedPhases` array with updated phase skeletons.\nFor \"retry_tasks\", include `taskIndices` (indices within this phase).\n\n"@
        + "CRITICAL JSON RULES:\n- Output ONLY valid JSON — no comments, no trailing commas\n- The JSON block must be the LAST thing in your response"@
}

fn review_task_entry_text(t: &Task) -> (r: String)
    ensures
        r@ == review_task_entry(*t),
{
    let mut out = String::new();
    push_str(&mut out, "Task ");
    push_decimal(&mut out, t.index as u64);
    push_str(&mut out, ": ");
    push_str(&mut out, t.title.as_str());
    push_str(&mut out, "\nStatus: ");
    push_str(&mut out, crate::task_store::status_name_of(t.status));
    push_str(&mut out, "\nVerification: ");
    let label = match &t.result {
        Some(r) => match r.verification_passed {
            Some(true) => "PASS",
            Some(false) => "FAIL",
            None => "N/A",
        },
        None => "N/A",
    };
    push_str(&mut out, label);
    push_str(&mut out, "\nSummary: ");
    match &t.result {
        Some(r) => push_str(&mut out, r.summary.as_str()),
        None => push_str(&mut out, "N/A"),
    }
    assert(out@ =~= review_task_entry(*t));
    out
}

fn review_task_entries_text(ts: &Vec<Task>) -> (r: String)
    ensures
        r@ == join(review_task_entries(ts@), "\n\n"@),
{
    let mut parts: Vec<String> = Vec::new();
    let mut k: usize = 0;
    while k < ts.len()
        invariant
            k <= ts.len(),
            views(parts@) == review_task_entries(ts@.take(k as int)),
        decreases ts.len() - k,
    {
        let p = review_task_entry_text(&ts[k]);
        let ghost before = views(parts@);
        let ghost pv = p@;
        parts.push(p);
        assert(views(parts@) =~= before.push(pv));
        assert(review_task_entries(ts@.take(k + 1)) =~= review_task_entries(ts@.take(k as int)).push(pv));
        k = k + 1;
    }
    assert(ts@.take(ts.len() as int) =~= ts@);
    join_strings(&parts, "\n\n")
}

fn phase_diff_entries_text(e: &Vec<(usize, String)>) -> (r: String)
    ensures
        r@ == join(phase_diff_entries(e@), "\n\n"@),
{
    let mut parts: Vec<String> = Vec::new();
    let mut k: usize = 0;
    while k < e.len()
        invariant
            k <= e.len(),
            views(parts@) == phase_diff_entries(e@.take(k as int)),
        decreases e.len() - k,
    {
        let mut p = String::new();
        push_str(&mut p, "### Task ");
        push_decimal(&mut p, e[k].0 as u64);
        push_str(&mut p, "\n```diff\n");
        let c = head_cut_text(e[k].1.as_str(), 3000);
        push_str(&mut p, c.as_str());
        push_str(&mut p, "\n```");
        let ghost before = views(parts@);
        let ghost pv = p@;
        assert(pv =~= phase_diff_entry(e@[k as int]));
        parts.push(p);
        assert(views(parts@) =~= before.push(pv));
        assert(phase_diff_entries(e@.take(k + 1)) =~= phase_diff_entries(e@.take(k as int)).push(pv));
        k = k + 1;
    }
    assert(e@.take(e.len() as int) =~= e@);
    join_strings(&parts, "\n\n")
}

fn remaining_text_of(ps: &[Phase]) -> (r: String)
    ensures
        r@ == remaining_text(ps@),
{
    let mut parts: Vec<String> = Vec::new();
    let mut k: usize = 0;
    while k < ps.len()
        invariant
            k <= ps.len(),
            views(parts@) == pending_lines(ps@.take(k as int)),
        decreases ps.len() - k,
    {
        assert(ps@.take(k + 1).drop_last() =~= ps@.take(k as int));
        if ps[k].status == PhaseStatus::Pending {
            let mut p = String::new();
            push_str(&mut p, "- ");
            push_str(&mut p, ps[k].title.as_str());
            push_str(&mut p, ": ");
            push_str(&mut p, ps[k].description.as_str());
            let ghost before = views(parts@);
            let ghost pv = p@;
            parts.push(p);
            assert(views(parts@) =~= before.push(pv));
        }
        k = k + 1;
    }
    assert(ps@.take(ps.len() as int) =~= ps@);
    let j = join_strings(&parts, "\n");
    if crate::text::chars_of(j.as_str()).len() == 0 {
        let mut out = String::new();
        push_str(&mut out, "None — this was the last phase");
        out
    } else {
        j
    }
}

/// The prompt that asks the conductor to review a finished phase: its
/// tasks' results, the diffs by task number, the phases still pending and,
/// on a retry, a note of the attempt.
#[verifier::rlimit(30)]
pub fn phase_review_prompt(phase: &Phase, all_phases: &[Phase], diffs: &Vec<(usize, String)>, retry_attempt: u32) -> (r: String)
    ensures
        r@ == phase_review_text(*phase, all_phases@, diffs@, retry_attempt),
{
    let mut out = String::new();
    push_str(&mut out, "## Phase Review: ");
    push_str(&mut out, phase.title.as_str());
    push_str(&mut out, "\n");
    if retry_attempt > 0 {
        push_str(&mut out, "\n**NOTE**: This is retry attempt ");
        push_decimal(&mut out, retry_attempt as u64);
        push_str(&mut out, "/3. If the issues are minor or cosmetic, prefer \"continue\" over another retry.\n");
    }
    push_str(&mut out, "\n### Completed Task Results\n");
    let tr = review_task_entries_text(&phase.tasks);
    push_str(&mut out, tr.as_str());
    push_str(&mut out, "\n\n### Git Diffs\n");
    let sorted = sort_entries(diffs);
    let ds = phase_diff_entries_text(&sorted);
    push_str(&mut out, ds.as_str());
    push_str(&mut out, "\n\n### Remaining Phases\n");
    let rt = remaining_text_of(all_phases);
    push_str(&mut out, rt.as_str());
    push_str(&mut out, "\n\n## Instructions\n\nReview the completed phase. Decide the next action:\n\n1. `\"continue\"` — Phase succeeded, proceed to next phase\n");
    push_str(&mut out, "2. `\"retry_tasks\"` — Some tasks failed, retry specific ones within this phase\n3. `\"revise_remaining_phases\"` — Phase succeeded but remaining phases need adjustment\n");
    push_str(&mut out, "4. `\"abort\"` — Critical failure, stop execution\n\nOutput as a JSON code block:\n\n```json\n{\n\"action\": \"continue|retry_tasks|revise_remaining_phases|abort\",\n");
    push_str(&mut out, "\"taskIndices\": [0, 2],\n\"summary\": \"Explanation of the decision\",\n\"revisedPhases\": [],\n\"insights\": []\n}\n```\n\n");
    push_str(&mut out, "For \"revise_remaining_phases\", include a `revisedPhases` array with updated phase skeletons.\nFor \"retry_tasks\", include `taskIndices` (indices within this phase).\n\n");
    push_str(&mut out, "CRITICAL JSON RULES:\n- Output ONLY valid JSON — no comments, no trailing commas\n- The JSON block must be the LAST thing in your response");
    proof {
        reveal_strlit("");
    }
    assert(out@ =~= phase_review_text(*phase, all_phases@, diffs@, retry_attempt));
    out
}

// ─── Final review ────────────────────────────────────────────────

/// What the conductor's final review is given: the task results as text,
/// the shared memory, and the diffs and verification outputs by task
/// number.
pub struct ReviewInput {
    pub task_results: String,
    pub shared_memory: String,
    pub diffs: Option<Vec<(usize, String)>>,
    pub verification_results: Option<Vec<(usize, String)>>,
}

/// How many of the latest diffs are shown in full.
pub const RECENT_DIFFS: usize = 10;

/// The task numbers of the entries stay below the largest machine number.
pub open spec fn numbers_fit(e: Seq<(usize, String)>) -> bool {
    forall|i: int| 0 <= i < e.len() ==> (#[trigger] e[i]).0 < usize::MAX
}

/// The line that stands for an older diff.
pub open spec fn older_diff_line(e: (usize, String)) -> Seq<char> {
    "- Task "@ + decimal((e.0 + 1) as nat) + ": diff available but omitted for context budget\n"@
}

/// A recent diff, shown in full up to its budget.
pub open spec fn recent_diff_block(e: (usize, String)) -> Seq<char> {
    "### Task "@ + decimal((e.0 + 1) as nat) + "\n```diff\n"@ + head_cut(e.1@, 3000) + "\n```\n\n"@
}

/// The concatenation of `f` over the entries.
pub open spec fn concat_over(e: Seq<(usize, String)>, f: spec_fn((usize, String)) -> Seq<char>) -> Seq<char>
    decreases e.len(),
{
    if e.len() == 0 { Seq::empty() } else { concat_over(e.drop_last(), f) + f(e.last()) }
}

/// The diff section of the final review: older diffs named only, the
/// latest ten shown in full, in order of task number.
pub open spec fn review_diff_section(diffs: Option<Seq<(usize, String)>>) -> Seq<char> {
    let sorted = match diffs {
        Some(d) => sorted_entries(d),
        None => Seq::empty(),
    };
    let recent = if sorted.len() < RECENT_DIFFS { sorted.len() } else { RECENT_DIFFS as nat };
    let older = sorted.take(sorted.len() - recent);
    let latest = sorted.skip(sorted.len() - recent);
    (if older.len() > 0 {
        "## Older Task Diffs (summary only)\n"@ + concat_over(older, |e: (usize, String)| older_diff_line(e)) + "\n"@
    } else {
        Seq::empty()
    }) + (if latest.len() > 0 {
        "## Git Diffs (recent tasks)\n"@ + concat_over(latest, |e: (usize, String)| recent_diff_block(e))
    } else {
        Seq::empty()
    })
}

/// One verification entry.
pub open spec fn verification_entry(e: (usize, String)) -> Seq<char> {
    "### Task "@ + decimal((e.0 + 1) as nat) + "\n```\n"@ + head_cut(e.1@, 2000) + "\n```"@
}

/// The verification section of the final review, in the order given.
pub open spec fn review_verify_section(v: Option<Seq<(usize, String)>>) -> Seq<char> {
    match v {
        Some(e) => if e.len() > 0 {
            "## Verification Results\n"@ + join(Seq::new(e.len(), |i: int| verification_entry(e[i])), "\n\n"@) + "\n\n"@
        } else {
            Seq::empty()
        },
        None => Seq::empty(),
    }
}

/// The view of optional entries.
pub open spec fn entries_view(o: Option<Vec<(usize, String)>>) -> Option<Seq<(usize, String)>> {
    match o {
        Some(v) => Some(v@),
        None => None,
    }
}

/// The prompt of the conductor's final review.
pub open spec fn review_text(input: ReviewInput) -> Seq<char> {
    "Review the completed work from musicians.\n\n## Completed Task Results\n"@ + input.task_results@ + "\n\n"@
        + review_diff_section(entries_view(input.diffs)) + review_verify_section(entries_view(input.verification_results))
        + "## Shared Memory (musician discoveries)\n"@ + tail_budget(input.shared_memory@, 4000) + review_tail()
}

/// The fixed instructions that end the final review prompt.
pub open spec fn review_tail() -> Seq<char> {
    "\n\n## Instructions\n\nReview all completed work — pay attention to the actual diffs and verification results, not just the summaries. Decide the next action:\n\n"@
        + "1. If all tasks succeeded and the work looks correct: output `{\"action\": \"complete\", \"summary\": \"...\"}`\n"@
        + "2. If some tasks failed or have typecheck errors: output `{\"action\": \"retry\", \"taskIndices\": [0, 2], \"adjustedInstructions\": \"...\"}`\n"@
        + "3. If additional tasks are needed: output `{\"action\": \"extend\", \"newTasks\": [...], \"reason\": \"...\"}`\n"@
        + "4. If there are integration issues: output `{\"action\": \"integrate\", \"instructions\": \"...\"}`\n\n"@
        + "Include an \"insights\" array in your JSON output.\n\nOutput your decision as a COMPLETE, valid JSON block inside ```json fences.\n"@
        + "No trailing commas, no comments — strict JSON only.\nThe JSON block must be the LAST thing in your response."@
}

fn push_older_lines(out: &mut String, e: &Vec<(usize, String)>, from: usize, to: usize)
    requires
        from <= to <= e@.len(),
        numbers_fit(e@),
    ensures
        final(out)@ == old(out)@ + concat_over(e@.subrange(from as int, to as int), |x: (usize, String)| older_diff_line(x)),
{
    let ghost start = out@;
    let mut k = from;
    assert(e@.subrange(from as int, from as int) =~= Seq::<(usize, String)>::empty());
    while k < to
        invariant
            from <= k <= to <= e@.len(),
            numbers_fit(e@),
            out@ == start + concat_over(e@.subrange(from as int, k as int), |x: (usize, String)| older_diff_line(x)),
        decreases to - k,
    {
        assert(e@[k as int].0 < usize::MAX);
        push_str(out, "- Task ");
        push_decimal(out, (e[k].0 + 1) as u64);
        push_str(out, ": diff available but omitted for context budget\n");
        assert(e@.subrange(from as int, k + 1).drop_last() =~= e@.subrange(from as int, k as int));
        k = k + 1;
        assert(out@ =~= start + concat_over(e@.subrange(from as int, k as int), |x: (usize, String)| older_diff_line(x)));
    }
}

fn push_recent_blocks(out: &mut String, e: &Vec<(usize, String)>, from: usize, to: usize)
    requires
        from <= to <= e@.len(),
        numbers_fit(e@),
    ensures
        final(out)@ == old(out)@ + concat_over(e@.subrange(from as int, to as int), |x: (usize, String)| recent_diff_block(x)),
{
    let ghost start = out@;
    let mut k = from;
    assert(e@.subrange(from as int, from as int) =~= Seq::<(usize, String)>::empty());
    while k < to
        invariant
            from <= k <= to <= e@.len(),
            numbers_fit(e@),
            out@ == start + concat_over(e@.subrange(from as int, k as int), |x: (usize, String)| recent_diff_block(x)),
        decreases to - k,
    {
        assert(e@[k as int].0 < usize::MAX);
        push_str(out, "### Task ");
        push_decimal(out, (e[k].0 + 1) as u64);
        push_str(out, "\n```diff\n");
        let c = head_cut_text(e[k].1.as_str(), 3000);
        push_str(out, c.as_str());
        push_str(out, "\n```\n\n");
        assert(e@.subrange(from as int, k + 1).drop_last() =~= e@.subrange(from as int, k as int));
        k = k + 1;
        assert(out@ =~= start + concat_over(e@.subrange(from as int, k as int), |x: (usize, String)| recent_diff_block(x)));
    }
}

proof fn lemma_sorted_numbers_fit(e: Seq<(usize, String)>)
    requires
        numbers_fit(e),
    ensures
        numbers_fit(sorted_entries(e)),
{
    lemma_sorted_members(e);
    assert forall|i: int| 0 <= i < sorted_entries(e).len() implies (#[trigger] sorted_entries(e)[i]).0 < usize::MAX by {
        let x = sorted_entries(e)[i];
        assert(e.contains(x));
        let j = choose|j: int| 0 <= j < e.len() && e[j] == x;
        assert(e[j].0 < usize::MAX);
    }
}

fn review_diff_text(diffs: &Option<Vec<(usize, String)>>) -> (r: String)
    requires
        diffs matches Some(d) ==> numbers_fit(d@),
    ensures
        r@ == review_diff_section(entries_view(*diffs)),
{
    let sorted = match diffs {
        Some(d) => {
            proof {
                lemma_sorted_numbers_fit(d@);
            }
            sort_entries(d)
        },
        None => Vec::new(),
    };
    let n = sorted.len();
    let recent = if n < RECENT_DIFFS { n } else { RECENT_DIFFS };
    let split = n - recent;
    let mut out = String::new();
    if split > 0 {
        push_str(&mut out, "## Older Task Diffs (summary only)\n");
        push_older_lines(&mut out, &sorted, 0, split);
        push_str(&mut out, "\n");
    }
    if recent > 0 {
        push_str(&mut out, "## Git Diffs (recent tasks)\n");
        push_recent_blocks(&mut out, &sorted, split, n);
    }
    proof {
        reveal_strlit("");
        assert(sorted@.subrange(0, split as int) =~= sorted@.take(split as int));
        assert(sorted@.subrange(split as int, n as int) =~= sorted@.skip(split as int));
    }
    assert(out@ =~= review_diff_section(entries_view(*diffs)));
    out
}

fn review_verify_text(v: &Option<Vec<(usize, String)>>) -> (r: String)
    requires
        v matches Some(e) ==> numbers_fit(e@),
    ensures
        r@ == review_verify_section(entries_view(*v)),
{
    let mut out = String::new();
    match v {
        None => {
            proof {
                reveal_strlit("");
            }
        },
        Some(e) => {
            if e.len() > 0 {
                let ghost entries = Seq::new(e@.len(), |i: int| verification_entry(e@[i]));
                let mut parts: Vec<String> = Vec::new();
                let mut k: usize = 0;
                while k < e.len()
                    invariant
                        k <= e@.len(),
                        numbers_fit(e@),
                        entries == Seq::new(e@.len(), |i: int| verification_entry(e@[i])),
                        views(parts@) == entries.take(k as int),
                    decreases e@.len() - k,
                {
                    assert(e@[k as int].0 < usize::MAX);
                    let mut p = String::new();
                    push_str(&mut p, "### Task ");
                    push_decimal(&mut p, (e[k].0 + 1) as u64);
                    push_str(&mut p, "\n```\n");
                    let c = head_cut_text(e[k].1.as_str(), 2000);
                    push_str(&mut p, c.as_str());
                    push_str(&mut p, "\n```");
                    let ghost before = views(parts@);
                    let ghost pv = p@;
                    assert(pv =~= verification_entry(e@[k as int]));
                    parts.push(p);
                    assert(views(parts@) =~= before.push(pv));
                    k = k + 1;
                    assert(entries.take(k as int) =~= entries.take(k - 1).push(pv));
                }
                assert(entries.take(k as int) =~= entries);
                push_str(&mut out, "## Verification Results\n");
                let j = join_strings(&parts, "\n\n");
                push_str(&mut out, j.as_str());
                push_str(&mut out, "\n\n");
            } else {
                proof {
                    reveal_strlit("");
                }
            }
        },
    }
    assert(out@ =~= review_verify_section(entries_view(*v)));
    out
}

/// The prompt of the conductor's final review: the task results, the
/// diffs (the latest ten in full, older ones named), the verification
/// outputs, the end of the shared memory, and the actions to choose from.
#[verifier::rlimit(30)]
pub fn review_prompt(input: &ReviewInput) -> (r: String)
    requires
        input.diffs matches Some(d) ==> numbers_fit(d@),
        input.verification_results matches Some(v) ==> numbers_fit(v@),
    ensures
        r@ == review_text(*input),
{
    let mut out = String::new();
    push_str(&mut out, "Review the completed work from musicians.\n\n## Completed Task Results\n");
    push_str(&mut out, input.task_results.as_str());
    push_str(&mut out, "\n\n");
    let ds = review_diff_text(&input.diffs);
    push_str(&mut out, ds.as_str());
    let vs = review_verify_text(&input.verification_results);
    push_str(&mut out, vs.as_str());
    push_str(&mut out, "## Shared Memory (musician discoveries)\n");
    let sm = tail_budget_text(input.shared_memory.as_str(), 4000);
    push_str(&mut out, sm.as_str());
    push_str(&mut out, "\n\n## Instructions\n\nReview all completed work — pay attention to the actual diffs and verification results, not just the summaries. Decide the next action:\n\n");
    push_str(&mut out, "1. If all tasks succeeded and the work looks correct: output `{\"action\": \"complete\", \"summary\": \"...\"}`\n");
    push_str(&mut out, "2. If some tasks failed or have typecheck errors: output `{\"action\": \"retry\", \"taskIndices\": [0, 2], \"adjustedInstructions\": \"...\"}`\n");
    push_str(&mut out, "3. If additional tasks are needed: output `{\"action\": \"extend\", \"newTasks\": [...], \"reason\": \"...\"}`\n");
    push_str(&mut out, "4. If there are integration issues: output `{\"action\": \"integrate\", \"instructions\": \"...\"}`\n\n");
    push_str(&mut out, "Include an \"insights\" array in your JSON output.\n\nOutput your decision as a COMPLETE, valid JSON block inside ```json fences.\n");
    push_str(&mut out, "No trailing commas, no comments — strict JSON only.\nThe JSON block must be the LAST thing in your response.");
    assert(out@ =~= review_text(*input));
    out
}

// ─── Prompt builders ─────────────────────────────────────────────

/// The prompt that asks the conductor for a complete plan of the task,
/// with the project's instructions and an earlier session when given.
pub fn plan_prompt(project_path: &str, task_description: &str, reference_session_context: Option<&str>, project_instructions: &str, instructions_file: &str) -> (r: String)
    ensures
        r@ == plan_prompt_text(project_path@, task_description@, opt_str(reference_session_context), project_instructions@, instructions_file@),
{
    let mut out = String::new();
    push_plan_prompt_text(&mut out, project_path, task_description, reference_session_context, project_instructions, instructions_file);
    out
}

/// The prompt that asks the conductor to explore the codebase first.
pub fn explore_prompt(project_path: &str, task_description: &str, reference_session_context: Option<&str>, project_instructions: &str, instructions_file: &str) -> (r: String)
    ensures
        r@ == explore_prompt_text(project_path@, task_description@, opt_str(reference_session_context), project_instructions@, instructions_file@),
{
    let mut out = String::new();
    push_explore_prompt_text(&mut out, project_path, task_description, reference_session_context, project_instructions, instructions_file);
    out
}

/// The prompt that sends an analyst to investigate one area.
pub fn analyst_prompt(directive: &AnalysisDirective, codebase_summary: &str, project_path: &str, project_instructions: &str) -> (r: String)
    ensures
        r@ == analyst_prompt_text(*directive, codebase_summary@, project_path@, project_instructions@),
{
    let mut out = String::new();
    push_analyst_prompt_text(&mut out, directive, codebase_summary, project_path, project_instructions);
    out
}

/// The prompt that asks the conductor to split the task into phases.
pub fn decompose_prompt(task_description: &str) -> (r: String)
    ensures
        r@ == decompose_prompt_text(task_description@),
{
    let mut out = String::new();
    push_decompose_prompt_text(&mut out, task_description);
    out
}

/// The decomposition prompt that carries the analysts' reports.
pub fn decompose_with_analysis_prompt(task_description: &str, analysis_results: &[AnalysisResult]) -> (r: String)
    ensures
        r@ == decompose_with_analysis_text(task_description@, analysis_results@),
{
    let mut out = String::new();
    push_decompose_with_analysis_text(&mut out, task_description, analysis_results);
    out
}

/// The prompt that asks the conductor to detail the next phase, with what
/// the completed phases did.
pub fn detail_phase_prompt(phase: &Phase, completed_phases: &[Phase]) -> (r: String)
    ensures
        r@ == detail_phase_text(*phase, completed_phases@),
{
    let mut out = String::new();
    push_detail_phase_text(&mut out, phase, completed_phases);
    out
}

/// The prompt that asks the conductor to act on user guidance.
pub fn guidance_prompt(input: &GuidanceInput) -> (r: String)
    ensures
        r@ == guidance_prompt_text(*input),
{
    let mut out = String::new();
    push_guidance_prompt_text(&mut out, input);
    out
}

/// The instructions sent with a request to adjust the plan.
pub open spec fn refine_text() -> Seq<char> {
    "The user wants to adjust the current plan. Make ONLY the changes they requested — do not redesign the entire plan.\n\nYou may: add, remove, or modify tasks; change descriptions, file scopes, dependencies, or model assignments; reorder or merge tasks; adjust estimates.\n\nIf the user attached images (screenshots, mockups, etc.), analyze them and incorporate the visual context into relevant task descriptions.\n\nFirst, briefly explain what you're changing and why (2-3 sentences max).\nThen output the COMPLETE updated plan as a ```json block (same format as the original plan).\n\nCRITICAL: Output complete, valid JSON. No comments, no trailing commas.\nThe JSON block must be the LAST thing in your response."@
}

/// The instructions sent with a request to adjust the plan.
pub fn refine_prompt() -> (r: &'static str)
    ensures
        r@ == refine_text(),
{
    "The user wants to adjust the current plan. Make ONLY the changes they requested — do not redesign the entire plan.\n\nYou may: add, remove, or modify tasks; change descriptions, file scopes, dependencies, or model assignments; reorder or merge tasks; adjust estimates.\n\nIf the user attached images (screenshots, mockups, etc.), analyze them and incorporate the visual context into relevant task descriptions.\n\nFirst, briefly explain what you're changing and why (2-3 sentences max).\nThen output the COMPLETE updated plan as a ```json block (same format as the original plan).\n\nCRITICAL: Output complete, valid JSON. No comments, no trailing commas.\nThe JSON block must be the LAST thing in your response."
}

} // verus!
