//! GPU monitoring: the rows `nvidia-smi` prints in its CSV query formats,
//! read into fields, and the container a GPU process runs in.
use vstd::prelude::*;
use crate::containers::first_chars;
use crate::server_utils::{capped_len_v, utf8_len};
use crate::text::{
    ends_with_v,
    chars_of, join, join_v, lemma_views_push, lines, lines_v, parse_u64, parse_u64_v, slice, split_by, split_by_v,
    string_of, trim, trim_v, views,
};

verus! {

/// The number a field holds, trimmed.
pub open spec fn num(t: Seq<char>) -> Option<u64> {
    parse_u64(trim(t))
}

pub open spec fn num_or_zero(t: Seq<char>) -> u64 {
    match num(t) { Some(v) => v, None => 0 }
}

/// The `n`th field, if there is one.
pub open spec fn field(p: Seq<Seq<char>>, n: int) -> Option<Seq<char>> {
    if 0 <= n < p.len() { Some(p[n]) } else { None }
}

/// One GPU as `nvidia-smi --query-gpu=index,name,memory.total,memory.used,
/// memory.free,utilization.gpu,utilization.memory,temperature.gpu,
/// power.draw,power.limit,fan.speed,driver_version,pstate` prints it. The
/// power readings are kept as text: they are decimals the caller reads.
pub struct GpuRow {
    pub index: u64,
    pub name: String,
    pub memory_total_mb: u64,
    pub memory_used_mb: u64,
    pub memory_free_mb: u64,
    pub utilization_gpu_pct: u64,
    pub utilization_memory_pct: u64,
    pub temperature_c: Option<u64>,
    pub power_draw_w: Option<String>,
    pub power_limit_w: Option<String>,
    pub fan_speed_pct: Option<u64>,
    pub driver_version: String,
    pub performance_state: String,
}

pub struct GpuView {
    pub index: u64,
    pub name: Seq<char>,
    pub memory_total_mb: u64,
    pub memory_used_mb: u64,
    pub memory_free_mb: u64,
    pub utilization_gpu_pct: u64,
    pub utilization_memory_pct: u64,
    pub temperature_c: Option<u64>,
    pub power_draw_w: Option<Seq<char>>,
    pub power_limit_w: Option<Seq<char>>,
    pub fan_speed_pct: Option<u64>,
    pub driver_version: Seq<char>,
    pub performance_state: Seq<char>,
}

pub open spec fn opt_view(o: Option<String>) -> Option<Seq<char>> {
    match o { Some(s) => Some(s@), None => None }
}

pub open spec fn gpu_view(g: GpuRow) -> GpuView {
    GpuView {
        index: g.index,
        name: g.name@,
        memory_total_mb: g.memory_total_mb,
        memory_used_mb: g.memory_used_mb,
        memory_free_mb: g.memory_free_mb,
        utilization_gpu_pct: g.utilization_gpu_pct,
        utilization_memory_pct: g.utilization_memory_pct,
        temperature_c: g.temperature_c,
        power_draw_w: opt_view(g.power_draw_w),
        power_limit_w: opt_view(g.power_limit_w),
        fan_speed_pct: g.fan_speed_pct,
        driver_version: g.driver_version@,
        performance_state: g.performance_state@,
    }
}

/// A row read field by field: split at `", "`, the index first and the
/// eleven readings last, everything between them the name (a name may
/// itself hold `", "`). A row with fewer fields keeps its index and name
/// and reads as zeros.
pub open spec fn gpu_of(line: Seq<char>) -> GpuView {
    let p = split_by(line, ", "@);
    if p.len() >= 13 {
        let e = p.len() - 11;
        GpuView {
            index: num_or_zero(p[0]),
            name: trim(join(p.subrange(1, e), ", "@)),
            memory_total_mb: num_or_zero(p[e]),
            memory_used_mb: num_or_zero(p[e + 1]),
            memory_free_mb: num_or_zero(p[e + 2]),
            utilization_gpu_pct: num_or_zero(p[e + 3]),
            utilization_memory_pct: num_or_zero(p[e + 4]),
            temperature_c: num(p[e + 5]),
            power_draw_w: Some(trim(p[e + 6])),
            power_limit_w: Some(trim(p[e + 7])),
            fan_speed_pct: num(p[e + 8]),
            driver_version: trim(p[e + 9]),
            performance_state: trim(p[e + 10]),
        }
    } else {
        GpuView {
            index: match field(p, 0) { Some(f) => num_or_zero(f), None => 0 },
            name: trim(match field(p, 1) { Some(f) => f, None => "Unknown"@ }),
            memory_total_mb: 0,
            memory_used_mb: 0,
            memory_free_mb: 0,
            utilization_gpu_pct: 0,
            utilization_memory_pct: 0,
            temperature_c: None,
            power_draw_w: None,
            power_limit_w: None,
            fan_speed_pct: None,
            driver_version: Seq::empty(),
            performance_state: Seq::empty(),
        }
    }
}

fn num_v(t: &Vec<char>) -> (r: Option<u64>)
    ensures r == num(t@),
{
    parse_u64_v(&trim_v(t))
}

fn num0_v(t: &Vec<char>) -> (r: u64)
    ensures r == num_or_zero(t@),
{
    match num_v(t) { Some(v) => v, None => 0 }
}

fn sep() -> (r: Vec<char>)
    ensures r@ == ", "@, r@.len() > 0,
{
    let r = chars_of(", ");
    proof { reveal_strlit(", "); }
    r
}

fn gpu_v(line: &Vec<char>) -> (r: GpuRow)
    ensures gpu_view(r) == gpu_of(line@),
{
    let s = sep();
    let p = split_by_v(line, &s);
    let n = p.len();
    if n >= 13 {
        let e = n - 11;
        let mut name_parts: Vec<Vec<char>> = Vec::new();
        let mut k: usize = 1;
        while k < e
            invariant
                1 <= k <= e,
                e == p.len() - 11,
                views(name_parts@) == views(p@).subrange(1, k as int),
            decreases e - k,
        {
            let c = slice(&p[k], 0, p[k].len());
            assert(c@ =~= views(p@)[k as int]);
            proof { lemma_views_push(name_parts@, c); }
            name_parts.push(c);
            k += 1;
            assert(views(name_parts@) =~= views(p@).subrange(1, k as int));
        }
        let name = trim_v(&join_v(&name_parts, &s));
        assert(forall|j: int| 0 <= j < n ==> #[trigger] views(p@)[j] == p@[j]@);
        GpuRow {
            index: num0_v(&p[0]),
            name: string_of(&name),
            memory_total_mb: num0_v(&p[e]),
            memory_used_mb: num0_v(&p[e + 1]),
            memory_free_mb: num0_v(&p[e + 2]),
            utilization_gpu_pct: num0_v(&p[e + 3]),
            utilization_memory_pct: num0_v(&p[e + 4]),
            temperature_c: num_v(&p[e + 5]),
            power_draw_w: Some(string_of(&trim_v(&p[e + 6]))),
            power_limit_w: Some(string_of(&trim_v(&p[e + 7]))),
            fan_speed_pct: num_v(&p[e + 8]),
            driver_version: string_of(&trim_v(&p[e + 9])),
            performance_state: string_of(&trim_v(&p[e + 10])),
        }
    } else {
        assert(forall|j: int| 0 <= j < n ==> #[trigger] views(p@)[j] == p@[j]@);
        let index = if n > 0 { num0_v(&p[0]) } else { 0 };
        let name = if n > 1 { trim_v(&p[1]) } else { trim_v(&chars_of("Unknown")) };
        GpuRow {
            index,
            name: string_of(&name),
            memory_total_mb: 0,
            memory_used_mb: 0,
            memory_free_mb: 0,
            utilization_gpu_pct: 0,
            utilization_memory_pct: 0,
            temperature_c: None,
            power_draw_w: None,
            power_limit_w: None,
            fan_speed_pct: None,
            driver_version: String::new(),
            performance_state: String::new(),
        }
    }
}

/// The lines of an output that hold something.
pub open spec fn filled_lines(ls: Seq<Seq<char>>, n: nat) -> Seq<Seq<char>>
    decreases n,
{
    if n == 0 || n > ls.len() {
        Seq::empty()
    } else {
        let p = filled_lines(ls, (n - 1) as nat);
        if trim(ls[n - 1]).len() > 0 { p.push(ls[n - 1]) } else { p }
    }
}

/// The GPUs `nvidia-smi` listed, one per non-blank line.
pub fn parse_gpus(stdout: &str) -> (r: Vec<GpuRow>)
    ensures
        r@.len() == filled_lines(lines(stdout@), lines(stdout@).len()).len(),
        forall|i: int| 0 <= i < r@.len() ==>
            gpu_view(#[trigger] r@[i]) == gpu_of(filled_lines(lines(stdout@), lines(stdout@).len())[i]),
{
    let ls = lines_v(&chars_of(stdout));
    let mut out: Vec<GpuRow> = Vec::new();
    let mut k: usize = 0;
    while k < ls.len()
        invariant
            k <= ls.len(),
            views(ls@) == lines(stdout@),
            out@.len() == filled_lines(lines(stdout@), k as nat).len(),
            forall|i: int| 0 <= i < out@.len() ==>
                gpu_view(#[trigger] out@[i]) == gpu_of(filled_lines(lines(stdout@), k as nat)[i]),
        decreases ls.len() - k,
    {
        assert(ls@[k as int]@ == lines(stdout@)[k as int]);
        if trim_v(&ls[k]).len() > 0 {
            out.push(gpu_v(&ls[k]));
        }
        k += 1;
    }
    out
}

/// A process using a GPU, as `--query-compute-apps=pid,gpu_uuid,
/// used_gpu_memory,name` prints it.
pub struct GpuProcess {
    pub pid: u64,
    pub gpu_uuid: String,
    pub vram_used_mb: u64,
    pub process_name: String,
}

pub struct ProcessView {
    pub pid: u64,
    pub gpu_uuid: Seq<char>,
    pub vram_used_mb: u64,
    pub process_name: Seq<char>,
}

pub open spec fn process_view(g: GpuProcess) -> ProcessView {
    ProcessView { pid: g.pid, gpu_uuid: g.gpu_uuid@, vram_used_mb: g.vram_used_mb, process_name: g.process_name@ }
}

pub open spec fn text_or_empty(f: Option<Seq<char>>) -> Seq<char> {
    match f { Some(t) => trim(t), None => Seq::empty() }
}

pub open spec fn process_of(line: Seq<char>) -> ProcessView {
    let p = split_by(line, ", "@);
    ProcessView {
        pid: match field(p, 0) { Some(f) => num_or_zero(f), None => 0 },
        gpu_uuid: text_or_empty(field(p, 1)),
        vram_used_mb: match field(p, 2) { Some(f) => num_or_zero(f), None => 0 },
        process_name: text_or_empty(field(p, 3)),
    }
}

fn process_v(line: &Vec<char>) -> (r: GpuProcess)
    ensures process_view(r) == process_of(line@),
{
    let s = sep();
    let p = split_by_v(line, &s);
    let n = p.len();
    assert(forall|j: int| 0 <= j < n ==> #[trigger] views(p@)[j] == p@[j]@);
    GpuProcess {
        pid: if n > 0 { num0_v(&p[0]) } else { 0 },
        gpu_uuid: if n > 1 { string_of(&trim_v(&p[1])) } else { String::new() },
        vram_used_mb: if n > 2 { num0_v(&p[2]) } else { 0 },
        process_name: if n > 3 { string_of(&trim_v(&p[3])) } else { String::new() },
    }
}

/// The processes `nvidia-smi` listed, one per non-blank line.
pub fn parse_gpu_processes(stdout: &str) -> (r: Vec<GpuProcess>)
    ensures
        r@.len() == filled_lines(lines(stdout@), lines(stdout@).len()).len(),
        forall|i: int| 0 <= i < r@.len() ==>
            process_view(#[trigger] r@[i]) == process_of(filled_lines(lines(stdout@), lines(stdout@).len())[i]),
{
    let ls = lines_v(&chars_of(stdout));
    let mut out: Vec<GpuProcess> = Vec::new();
    let mut k: usize = 0;
    while k < ls.len()
        invariant
            k <= ls.len(),
            views(ls@) == lines(stdout@),
            out@.len() == filled_lines(lines(stdout@), k as nat).len(),
            forall|i: int| 0 <= i < out@.len() ==>
                process_view(#[trigger] out@[i]) == process_of(filled_lines(lines(stdout@), k as nat)[i]),
        decreases ls.len() - k,
    {
        assert(ls@[k as int]@ == lines(stdout@)[k as int]);
        if trim_v(&ls[k]).len() > 0 {
            out.push(process_v(&ls[k]));
        }
        k += 1;
    }
    out
}

// ── the container of a process ─────────────────────────────────────────

/// `trim_end_matches(".scope")`: every trailing `.scope` removed.
pub open spec fn without_scope(s: Seq<char>) -> Seq<char>
    decreases s.len(),
{
    if s.len() >= 6 && ".scope"@.is_suffix_of(s) { without_scope(s.take(s.len() - 6)) } else { s }
}

/// What follows `/docker/` in a cgroup line, else what follows `/docker-`.
pub open spec fn after_docker(line: Seq<char>) -> Option<Seq<char>> {
    let a = split_by(line, "/docker/"@);
    let b = split_by(line, "/docker-"@);
    if a.len() >= 2 { Some(a[1]) } else if b.len() >= 2 { Some(b[1]) } else { None }
}

/// The container id a cgroup line names: its first 12 characters, when
/// they take at least 12 bytes.
pub open spec fn line_container_id(line: Seq<char>) -> Option<Seq<char>> {
    match after_docker(line) {
        Some(rest) => {
            let id = first_chars(without_scope(rest), 12);
            if utf8_len(id) >= 12 { Some(id) } else { None }
        },
        None => None,
    }
}

/// The first container id the lines of `/proc/<pid>/cgroup` name.
pub open spec fn cgroup_container_id(ls: Seq<Seq<char>>) -> Option<Seq<char>>
    decreases ls.len(),
{
    if ls.len() == 0 {
        None
    } else {
        match line_container_id(ls[0]) {
            Some(id) => Some(id),
            None => cgroup_container_id(ls.skip(1)),
        }
    }
}

fn without_scope_v(s: &Vec<char>) -> (r: Vec<char>)
    ensures r@ == without_scope(s@),
    decreases s.len(),
{
    proof { reveal_strlit(".scope"); }
    if s.len() >= 6 && ends_with_v(s, &chars_of(".scope")) {
        without_scope_v(&slice(s, 0, s.len() - 6))
    } else {
        slice(s, 0, s.len())
    }
}

fn line_container_id_v(line: &Vec<char>) -> (r: Option<Vec<char>>)
    ensures
        match line_container_id(line@) {
            Some(id) => r matches Some(x) && x@ == id,
            None => r is None,
        },
{
    proof {
        reveal_strlit("/docker/");
        reveal_strlit("/docker-");
    }
    let a = split_by_v(line, &chars_of("/docker/"));
    let rest = if a.len() >= 2 {
        assert(views(a@)[1] == a@[1]@);
        let x = slice(&a[1], 0, a[1].len());
        assert(x@ =~= a@[1]@);
        x
    } else {
        let b = split_by_v(line, &chars_of("/docker-"));
        if b.len() >= 2 {
            assert(views(b@)[1] == b@[1]@);
            let x = slice(&b[1], 0, b[1].len());
            assert(x@ =~= b@[1]@);
            x
        } else {
            return None;
        }
    };
    assert(after_docker(line@) == Some(rest@));
    let w = without_scope_v(&rest);
    let n = if w.len() <= 12 { w.len() } else { 12 };
    let id = slice(&w, 0, n);
    assert(id@ =~= first_chars(without_scope(rest@), 12));
    if capped_len_v(&id, 12) >= 12 { Some(id) } else { None }
}

/// The short id of the container a process runs in, read from its cgroup
/// file.
pub fn container_of_cgroup(cgroup: &str) -> (r: Option<String>)
    ensures
        match cgroup_container_id(lines(cgroup@)) {
            Some(id) => r matches Some(x) && x@ == id,
            None => r is None,
        },
{
    let ls = lines_v(&chars_of(cgroup));
    let mut i: usize = 0;
    assert(lines(cgroup@).skip(0) =~= lines(cgroup@));
    while i < ls.len()
        invariant
            i <= ls.len(),
            views(ls@) == lines(cgroup@),
            cgroup_container_id(lines(cgroup@)) == cgroup_container_id(lines(cgroup@).skip(i as int)),
        decreases ls.len() - i,
    {
        assert(lines(cgroup@).skip(i as int)[0] == ls@[i as int]@);
        assert(lines(cgroup@).skip(i as int).skip(1) =~= lines(cgroup@).skip(i + 1));
        match line_container_id_v(&ls[i]) {
            Some(id) => {
                return Some(string_of(&id));
            },
            None => {},
        }
        i += 1;
    }
    assert(lines(cgroup@).skip(i as int) =~= Seq::<Seq<char>>::empty());
    None
}

/// The name `docker inspect --format {{.Name}}` prints: trimmed, without
/// its leading slashes; none when nothing is left.
pub open spec fn inspected_name(stdout: Seq<char>) -> Option<Seq<char>> {
    let n = crate::text::strip_leading(trim(stdout), '/');
    if n.len() > 0 { Some(n) } else { None }
}

pub fn container_name(stdout: &str) -> (r: Option<String>)
    ensures
        match inspected_name(stdout@) {
            Some(n) => r matches Some(x) && x@ == n,
            None => r is None,
        },
{
    let n = crate::text::strip_leading_v(&trim_v(&chars_of(stdout)), '/');
    if n.len() > 0 { Some(string_of(&n)) } else { None }
}

} // verus!
