use vstd::prelude::*;
use vstd::multiset::Multiset;

use crate::commands::{lower_of, lowercase};
use crate::text::{
    chars_of, contains_string, lemma_lex_lt_irreflexive, lemma_lex_lt_transitive, lex_lt, same_text,
    text_less, trim_of, trim_text, views,
};

verus! {

// ------------------------------------------------------------------
// Cache cleanup recipes
// ------------------------------------------------------------------

/// The PowerShell script that cleans: User Temp.
pub const USER_TEMP_SCRIPT: &'static str = r#"
$ErrorActionPreference='SilentlyContinue'
Remove-Item -Path (Join-Path $env:LOCALAPPDATA 'Temp\*') -Recurse -Force -ErrorAction SilentlyContinue
Write-Output '[OK] User Temp cleaned.'
"#;

/// The PowerShell script that cleans: Windows Temp.
pub const WINDOWS_TEMP_SCRIPT: &'static str = r#"
$ErrorActionPreference='SilentlyContinue'
Remove-Item -Path (Join-Path $env:WINDIR 'Temp\*') -Recurse -Force -ErrorAction SilentlyContinue
Write-Output '[OK] Windows Temp cleaned.'
"#;

/// The PowerShell script that cleans: Windows Update Cache.
pub const WINDOWS_UPDATE_CACHE_SCRIPT: &'static str = r#"
$ErrorActionPreference='SilentlyContinue'
Stop-Service -Name wuauserv -Force -ErrorAction SilentlyContinue
Stop-Service -Name bits -Force -ErrorAction SilentlyContinue
Remove-Item -Path (Join-Path $env:WINDIR 'SoftwareDistribution\Download\*') -Recurse -Force -ErrorAction SilentlyContinue
Start-Service -Name wuauserv -ErrorAction SilentlyContinue
Start-Service -Name bits -ErrorAction SilentlyContinue
Write-Output '[OK] Windows Update cache cleaned.'
"#;

/// The PowerShell script that cleans: Prefetch.
pub const PREFETCH_SCRIPT: &'static str = r#"
$ErrorActionPreference='SilentlyContinue'
Remove-Item -Path (Join-Path $env:WINDIR 'Prefetch\*') -Recurse -Force -ErrorAction SilentlyContinue
Write-Output '[OK] Prefetch cleaned.'
"#;

/// The PowerShell script that cleans: Explorer Cache (thumbnail/icon).
pub const EXPLORER_CACHE_SCRIPT: &'static str = r#"
$ErrorActionPreference='SilentlyContinue'
Remove-Item -Path (Join-Path $env:LOCALAPPDATA 'Microsoft\Windows\Explorer\thumbcache_*.db') -Force -ErrorAction SilentlyContinue
Remove-Item -Path (Join-Path $env:LOCALAPPDATA 'Microsoft\Windows\Explorer\iconcache_*.db') -Force -ErrorAction SilentlyContinue
Start-Process -FilePath ie4uinit.exe -ArgumentList '-ClearIconCache' -NoNewWindow -Wait -ErrorAction SilentlyContinue
Write-Output '[OK] Explorer thumbnail/icon cache cleaned.'
"#;

/// The PowerShell script that cleans: Microsoft Edge Cache.
pub const EDGE_CACHE_SCRIPT: &'static str = r#"
$ErrorActionPreference='SilentlyContinue'
$base = Join-Path $env:LOCALAPPDATA 'Microsoft\Edge\User Data\Default'
Remove-Item -Path (Join-Path $base 'Cache\*') -Recurse -Force -ErrorAction SilentlyContinue
Remove-Item -Path (Join-Path $base 'Code Cache\*') -Recurse -Force -ErrorAction SilentlyContinue
Remove-Item -Path (Join-Path $base 'GPUCache\*') -Recurse -Force -ErrorAction SilentlyContinue
Write-Output '[OK] Microsoft Edge cache cleaned.'
"#;

/// The PowerShell script that cleans: Google Chrome Cache.
pub const CHROME_CACHE_SCRIPT: &'static str = r#"
$ErrorActionPreference='SilentlyContinue'
$base = Join-Path $env:LOCALAPPDATA 'Google\Chrome\User Data\Default'
Remove-Item -Path (Join-Path $base 'Cache\*') -Recurse -Force -ErrorAction SilentlyContinue
Remove-Item -Path (Join-Path $base 'Code Cache\*') -Recurse -Force -ErrorAction SilentlyContinue
Remove-Item -Path (Join-Path $base 'GPUCache\*') -Recurse -Force -ErrorAction SilentlyContinue
Write-Output '[OK] Google Chrome cache cleaned.'
"#;

/// The PowerShell script that cleans: Mozilla Firefox Cache.
pub const FIREFOX_CACHE_SCRIPT: &'static str = r#"
$ErrorActionPreference='SilentlyContinue'
$profiles = Join-Path $env:LOCALAPPDATA 'Mozilla\Firefox\Profiles'
Remove-Item -Path "$profiles\*\cache2\*" -Recurse -Force -ErrorAction SilentlyContinue
Write-Output '[OK] Mozilla Firefox cache cleaned.'
"#;

/// The PowerShell script that cleans: INetCache.
pub const INET_CACHE_SCRIPT: &'static str = r#"
$ErrorActionPreference='SilentlyContinue'
Remove-Item -Path (Join-Path $env:LOCALAPPDATA 'Microsoft\Windows\INetCache\*') -Recurse -Force -ErrorAction SilentlyContinue
Write-Output '[OK] INetCache cleaned.'
"#;

/// The PowerShell script that cleans: WebCache.
pub const WEB_CACHE_SCRIPT: &'static str = r#"
$ErrorActionPreference='SilentlyContinue'
Remove-Item -Path (Join-Path $env:LOCALAPPDATA 'Microsoft\Windows\WebCache\*') -Recurse -Force -ErrorAction SilentlyContinue
Write-Output '[OK] WebCache cleaned.'
"#;

/// The PowerShell script that cleans: Crash Dumps.
pub const CRASH_DUMPS_SCRIPT: &'static str = r#"
$ErrorActionPreference='SilentlyContinue'
Remove-Item -Path (Join-Path $env:LOCALAPPDATA 'CrashDumps\*') -Recurse -Force -ErrorAction SilentlyContinue
Write-Output '[OK] Crash dumps cleaned.'
"#;

/// The PowerShell script that cleans: Windows Error Reporting (WER).
pub const WER_REPORTS_SCRIPT: &'static str = r#"
$ErrorActionPreference='SilentlyContinue'
Remove-Item -Path (Join-Path $env:ProgramData 'Microsoft\Windows\WER\*') -Recurse -Force -ErrorAction SilentlyContinue
Remove-Item -Path (Join-Path $env:LOCALAPPDATA 'Microsoft\Windows\WER\*') -Recurse -Force -ErrorAction SilentlyContinue
Write-Output '[OK] Windows Error Reporting (WER) cache cleaned.'
"#;

/// The PowerShell script that cleans: DirectX Shader Cache (D3DSCache).
pub const D3D_SHADER_CACHE_SCRIPT: &'static str = r#"
$ErrorActionPreference='SilentlyContinue'
Remove-Item -Path (Join-Path $env:LOCALAPPDATA 'D3DSCache\*') -Recurse -Force -ErrorAction SilentlyContinue
Write-Output '[OK] DirectX Shader Cache cleaned.'
"#;

/// The label and script of the cache cleanup named `name`, if there is one.
pub open spec fn cleanup_recipe(name: Seq<char>) -> Option<(&'static str, &'static str)> {
    if name == "user_temp"@ {
        Some(("User Temp", USER_TEMP_SCRIPT))
    } else if name == "windows_temp"@ {
        Some(("Windows Temp", WINDOWS_TEMP_SCRIPT))
    } else if name == "windows_update_cache"@ {
        Some(("Windows Update Cache", WINDOWS_UPDATE_CACHE_SCRIPT))
    } else if name == "prefetch"@ {
        Some(("Prefetch", PREFETCH_SCRIPT))
    } else if name == "explorer_cache"@ {
        Some(("Explorer Cache (thumbnail/icon)", EXPLORER_CACHE_SCRIPT))
    } else if name == "edge_cache"@ {
        Some(("Microsoft Edge Cache", EDGE_CACHE_SCRIPT))
    } else if name == "chrome_cache"@ {
        Some(("Google Chrome Cache", CHROME_CACHE_SCRIPT))
    } else if name == "firefox_cache"@ {
        Some(("Mozilla Firefox Cache", FIREFOX_CACHE_SCRIPT))
    } else if name == "inet_cache"@ {
        Some(("INetCache", INET_CACHE_SCRIPT))
    } else if name == "web_cache"@ {
        Some(("WebCache", WEB_CACHE_SCRIPT))
    } else if name == "crash_dumps"@ {
        Some(("Crash Dumps", CRASH_DUMPS_SCRIPT))
    } else if name == "wer_reports"@ {
        Some(("Windows Error Reporting (WER)", WER_REPORTS_SCRIPT))
    } else if name == "d3d_shader_cache"@ {
        Some(("DirectX Shader Cache (D3DSCache)", D3D_SHADER_CACHE_SCRIPT))
    } else {
        None
    }
}

/// The label and script of the cache cleanup named `target`, if there is one.
pub fn cache_cleanup_recipe(target: &str) -> (r: Option<(&'static str, &'static str)>)
    ensures
        r == cleanup_recipe(target@),
{
    if same_text(target, "user_temp") {
        Some(("User Temp", USER_TEMP_SCRIPT))
    } else if same_text(target, "windows_temp") {
        Some(("Windows Temp", WINDOWS_TEMP_SCRIPT))
    } else if same_text(target, "windows_update_cache") {
        Some(("Windows Update Cache", WINDOWS_UPDATE_CACHE_SCRIPT))
    } else if same_text(target, "prefetch") {
        Some(("Prefetch", PREFETCH_SCRIPT))
    } else if same_text(target, "explorer_cache") {
        Some(("Explorer Cache (thumbnail/icon)", EXPLORER_CACHE_SCRIPT))
    } else if same_text(target, "edge_cache") {
        Some(("Microsoft Edge Cache", EDGE_CACHE_SCRIPT))
    } else if same_text(target, "chrome_cache") {
        Some(("Google Chrome Cache", CHROME_CACHE_SCRIPT))
    } else if same_text(target, "firefox_cache") {
        Some(("Mozilla Firefox Cache", FIREFOX_CACHE_SCRIPT))
    } else if same_text(target, "inet_cache") {
        Some(("INetCache", INET_CACHE_SCRIPT))
    } else if same_text(target, "web_cache") {
        Some(("WebCache", WEB_CACHE_SCRIPT))
    } else if same_text(target, "crash_dumps") {
        Some(("Crash Dumps", CRASH_DUMPS_SCRIPT))
    } else if same_text(target, "wer_reports") {
        Some(("Windows Error Reporting (WER)", WER_REPORTS_SCRIPT))
    } else if same_text(target, "d3d_shader_cache") {
        Some(("DirectX Shader Cache (D3DSCache)", D3D_SHADER_CACHE_SCRIPT))
    } else {
        None
    }
}

// ------------------------------------------------------------------
// Choosing the cache targets to clean
// ------------------------------------------------------------------

pub open spec fn is_cache_token_char(c: char) -> bool {
    ('a' <= c <= 'z') || ('0' <= c <= '9') || c == '_' || c == '-'
}

/// Only lower-case ASCII letters, digits, `_` and `-`.
pub open spec fn is_cache_token(s: Seq<char>) -> bool {
    forall|i: int| 0 <= i < s.len() ==> is_cache_token_char(#[trigger] s[i])
}

/// The cache cleanups that normalized names ask for: each name that is a
/// known cleanup, at its first mention, in order.
pub open spec fn selected_cache_names(names: Seq<Seq<char>>) -> Seq<Seq<char>>
    decreases names.len(),
{
    if names.len() == 0 {
        Seq::empty()
    } else {
        let prev = selected_cache_names(names.drop_last());
        let n = names.last();
        if n.len() > 0 && is_cache_token(n) && !prev.contains(n) && cleanup_recipe(n) is Some {
            prev.push(n)
        } else {
            prev
        }
    }
}

/// A cache cleanup to run: its name, label and script.
#[derive(Debug)]
pub struct CacheTarget {
    pub name: String,
    pub label: &'static str,
    pub script: &'static str,
}

/// `ts` are the cleanups named by `names`, in that order.
pub open spec fn cache_targets_match(ts: Seq<CacheTarget>, names: Seq<Seq<char>>) -> bool {
    &&& ts.len() == names.len()
    &&& forall|k: int|
        0 <= k < ts.len() ==> (#[trigger] ts[k]).name@ == names[k] && cleanup_recipe(names[k]) == Some(
            (ts[k].label, ts[k].script),
        )
}

fn is_cache_token_text(s: &Vec<char>) -> (r: bool)
    ensures
        r == is_cache_token(s@),
{
    for i in 0..s.len()
        invariant
            forall|k: int| 0 <= k < i ==> is_cache_token_char(#[trigger] s@[k]),
    {
        let c = s[i];
        if !(('a' <= c && c <= 'z') || ('0' <= c && c <= '9') || c == '_' || c == '-') {
            assert(!is_cache_token_char(s@[i as int]));
            return false;
        }
    }
    true
}

/// The cleanups that already trimmed, lower-cased names ask for.
pub fn select_normalized_cache_targets(names: &Vec<String>) -> (r: Vec<CacheTarget>)
    ensures
        cache_targets_match(r@, selected_cache_names(views(names@))),
{
    let ghost ns = views(names@);
    let mut r: Vec<CacheTarget> = Vec::new();
    let mut seen: Vec<String> = Vec::new();
    for i in 0..names.len()
        invariant
            ns == views(names@),
            cache_targets_match(r@, selected_cache_names(ns.take(i as int))),
            views(seen@) == selected_cache_names(ns.take(i as int)),
    {
        assert(ns.take(i + 1).drop_last() == ns.take(i as int));
        assert(ns.take(i + 1).last() == names@[i as int]@);
        let cs = chars_of(names[i].as_str());
        if cs.len() > 0 && is_cache_token_text(&cs) && !contains_string(&seen, names[i].as_str()) {
            if let Some((label, script)) = cache_cleanup_recipe(names[i].as_str()) {
                let ghost before = r@;
                r.push(CacheTarget { name: names[i].clone(), label, script });
                seen.push(names[i].clone());
                assert(views(seen@) == views(seen@).drop_last().push(names@[i as int]@));
                assert(r@[before.len() as int] == r@.last());
            }
        }
    }
    assert(ns.take(names.len() as int) == ns);
    r
}

/// The names as the selection reads them: trimmed and in lower case.
pub open spec fn normalized_names(raw: Seq<Seq<char>>) -> Seq<Seq<char>> {
    raw.map_values(|t: Seq<char>| lower_of(trim_of(t)))
}

fn normalize_names(raw: &Vec<String>) -> (r: Vec<String>)
    ensures
        views(r@) == normalized_names(views(raw@)),
{
    let mut r: Vec<String> = Vec::new();
    for i in 0..raw.len()
        invariant
            r@.len() == i,
            forall|k: int| 0 <= k < i ==> (#[trigger] r@[k])@ == lower_of(trim_of(raw@[k]@)),
    {
        r.push(lowercase(trim_text(raw[i].as_str())));
    }
    assert(views(r@) == normalized_names(views(raw@)));
    r
}

/// The cache cleanups that `targets` ask for, after trimming and lower-casing
/// each: unknown names and repeats are dropped. Fails when nothing was asked
/// for, or nothing valid.
pub fn select_cache_targets(targets: &Vec<String>) -> (r: Result<Vec<CacheTarget>, String>)
    ensures
        targets@.len() == 0 ==> (r matches Err(e) && e@ == "No cache targets selected"@),
        targets@.len() > 0 ==> {
            let sel = selected_cache_names(normalized_names(views(targets@)));
            &&& sel.len() == 0 ==> (r matches Err(e) && e@ == "No valid cache targets selected"@)
            &&& sel.len() > 0 ==> (r matches Ok(ts) && cache_targets_match(ts@, sel))
        },
{
    if targets.len() == 0 {
        return Err(String::from_str("No cache targets selected"));
    }
    let names = normalize_names(targets);
    let selected = select_normalized_cache_targets(&names);
    if selected.len() == 0 {
        return Err(String::from_str("No valid cache targets selected"));
    }
    Ok(selected)
}

// ------------------------------------------------------------------
// Choosing the preinstalled packages to remove
// ------------------------------------------------------------------

/// The preinstalled packages that may be removed: package name and label.
pub open spec fn bloatware_table() -> Seq<(Seq<char>, Seq<char>)> {
    seq![
        ("Clipchamp.Clipchamp"@, "Clipchamp"@),
        ("Microsoft.BingNews"@, "Microsoft News"@),
        ("Microsoft.BingWeather"@, "Microsoft Weather"@),
        ("Microsoft.GetHelp"@, "Get Help"@),
        ("Microsoft.Getstarted"@, "Get Started"@),
        ("Microsoft.GamingApp"@, "Xbox"@),
        ("Microsoft.Microsoft3DViewer"@, "3D Viewer"@),
        ("Microsoft.MicrosoftOfficeHub"@, "Microsoft 365 (Office Hub)"@),
        ("Microsoft.MicrosoftSolitaireCollection"@, "Microsoft Solitaire Collection"@),
        ("Microsoft.MixedReality.Portal"@, "Mixed Reality Portal"@),
        ("Microsoft.OutlookForWindows"@, "Outlook for Windows"@),
        ("Microsoft.People"@, "People"@),
        ("Microsoft.PowerAutomateDesktop"@, "Power Automate"@),
        ("Microsoft.SkypeApp"@, "Skype"@),
        ("Microsoft.Todos"@, "Microsoft To Do"@),
        ("Microsoft.WindowsAlarms"@, "Clock"@),
        ("microsoft.windowscommunicationsapps"@, "Mail and Calendar"@),
        ("Microsoft.WindowsFeedbackHub"@, "Feedback Hub"@),
        ("Microsoft.WindowsMaps"@, "Maps"@),
        ("Microsoft.Xbox.TCUI"@, "Xbox TCUI"@),
        ("Microsoft.XboxGameOverlay"@, "Xbox Game Bar Plugin"@),
        ("Microsoft.XboxGamingOverlay"@, "Xbox Game Bar"@),
        ("Microsoft.XboxIdentityProvider"@, "Xbox Identity Provider"@),
        ("Microsoft.XboxSpeechToTextOverlay"@, "Xbox Speech To Text"@),
        ("Microsoft.YourPhone"@, "Phone Link"@),
        ("Microsoft.ZuneMusic"@, "Media Player (Legacy Music)"@),
        ("Microsoft.ZuneVideo"@, "Movies & TV"@),
        ("MicrosoftTeams"@, "Microsoft Teams"@),
        ("MicrosoftCorporationII.MicrosoftFamily"@, "Microsoft Family"@)
    ]
}

/// The preinstalled packages that may be removed: package name and label.
pub fn bloatware_candidates() -> (r: Vec<(&'static str, &'static str)>)
    ensures
        r@.len() == bloatware_table().len(),
        forall|k: int| 0 <= k < r@.len() ==> ((#[trigger] r@[k]).0@, r@[k].1@) == bloatware_table()[k],
{
    let mut r: Vec<(&'static str, &'static str)> = Vec::new();
    r.push(("Clipchamp.Clipchamp", "Clipchamp"));
    r.push(("Microsoft.BingNews", "Microsoft News"));
    r.push(("Microsoft.BingWeather", "Microsoft Weather"));
    r.push(("Microsoft.GetHelp", "Get Help"));
    r.push(("Microsoft.Getstarted", "Get Started"));
    r.push(("Microsoft.GamingApp", "Xbox"));
    r.push(("Microsoft.Microsoft3DViewer", "3D Viewer"));
    r.push(("Microsoft.MicrosoftOfficeHub", "Microsoft 365 (Office Hub)"));
    r.push(("Microsoft.MicrosoftSolitaireCollection", "Microsoft Solitaire Collection"));
    r.push(("Microsoft.MixedReality.Portal", "Mixed Reality Portal"));
    r.push(("Microsoft.OutlookForWindows", "Outlook for Windows"));
    r.push(("Microsoft.People", "People"));
    r.push(("Microsoft.PowerAutomateDesktop", "Power Automate"));
    r.push(("Microsoft.SkypeApp", "Skype"));
    r.push(("Microsoft.Todos", "Microsoft To Do"));
    r.push(("Microsoft.WindowsAlarms", "Clock"));
    r.push(("microsoft.windowscommunicationsapps", "Mail and Calendar"));
    r.push(("Microsoft.WindowsFeedbackHub", "Feedback Hub"));
    r.push(("Microsoft.WindowsMaps", "Maps"));
    r.push(("Microsoft.Xbox.TCUI", "Xbox TCUI"));
    r.push(("Microsoft.XboxGameOverlay", "Xbox Game Bar Plugin"));
    r.push(("Microsoft.XboxGamingOverlay", "Xbox Game Bar"));
    r.push(("Microsoft.XboxIdentityProvider", "Xbox Identity Provider"));
    r.push(("Microsoft.XboxSpeechToTextOverlay", "Xbox Speech To Text"));
    r.push(("Microsoft.YourPhone", "Phone Link"));
    r.push(("Microsoft.ZuneMusic", "Media Player (Legacy Music)"));
    r.push(("Microsoft.ZuneVideo", "Movies & TV"));
    r.push(("MicrosoftTeams", "Microsoft Teams"));
    r.push(("MicrosoftCorporationII.MicrosoftFamily", "Microsoft Family"));
    r
}

pub open spec fn is_package_token_char(c: char) -> bool {
    ('a' <= c <= 'z') || ('A' <= c <= 'Z') || ('0' <= c <= '9') || c == '.' || c == '_' || c == '-'
}

/// Only ASCII letters, digits, `.`, `_` and `-`.
pub open spec fn is_package_token(s: Seq<char>) -> bool {
    forall|i: int| 0 <= i < s.len() ==> is_package_token_char(#[trigger] s[i])
}

/// The first candidate, from position `k` on, whose lower-cased package name is `lower`.
pub open spec fn candidate_from(lower: Seq<char>, k: int) -> Option<int>
    decreases bloatware_table().len() - k,
{
    if k < 0 || k >= bloatware_table().len() {
        None
    } else if lower_of(bloatware_table()[k].0) == lower {
        Some(k)
    } else {
        candidate_from(lower, k + 1)
    }
}

/// The candidates that normalized names ask for, as positions in the table:
/// each name that is a candidate's package name, at its first mention, in order.
pub open spec fn selected_packages(names: Seq<Seq<char>>) -> Seq<int>
    decreases names.len(),
{
    if names.len() == 0 {
        Seq::empty()
    } else {
        let prev = selected_packages(names.drop_last());
        let n = names.last();
        let c = candidate_from(n, 0);
        if n.len() > 0 && is_package_token(n) && c is Some && !prev.contains(c->Some_0) {
            prev.push(c->Some_0)
        } else {
            prev
        }
    }
}

/// `ps` are the package names of the candidates at `sel`, in that order.
pub open spec fn packages_match(ps: Seq<&'static str>, sel: Seq<int>) -> bool {
    &&& ps.len() == sel.len()
    &&& forall|k: int| 0 <= k < ps.len() ==> (#[trigger] ps[k])@ == bloatware_table()[sel[k]].0
}

fn is_package_token_text(s: &Vec<char>) -> (r: bool)
    ensures
        r == is_package_token(s@),
{
    for i in 0..s.len()
        invariant
            forall|k: int| 0 <= k < i ==> is_package_token_char(#[trigger] s@[k]),
    {
        let c = s[i];
        if !(('a' <= c && c <= 'z') || ('A' <= c && c <= 'Z') || ('0' <= c && c <= '9') || c == '.'
            || c == '_' || c == '-') {
            assert(!is_package_token_char(s@[i as int]));
            return false;
        }
    }
    true
}

/// The position of the candidate whose lower-cased package name is `lower`.
fn find_candidate(table: &Vec<(&'static str, &'static str)>, lower: &str) -> (r: Option<usize>)
    requires
        table@.len() == bloatware_table().len(),
        forall|k: int| 0 <= k < table@.len() ==> ((#[trigger] table@[k]).0@, table@[k].1@) == bloatware_table()[k],
    ensures
        r matches Some(k) ==> candidate_from(lower@, 0) == Some(k as int),
        r is None ==> candidate_from(lower@, 0) is None,
{
    let mut k: usize = 0;
    while k < table.len()
        invariant
            table@.len() == bloatware_table().len(),
            forall|j: int| 0 <= j < table@.len() ==> ((#[trigger] table@[j]).0@, table@[j].1@) == bloatware_table()[j],
            k <= table@.len(),
            candidate_from(lower@, 0) == candidate_from(lower@, k as int),
        decreases table@.len() - k,
    {
        let name = lowercase(table[k].0);
        assert(table@[k as int].0@ == bloatware_table()[k as int].0);
        if same_text(name.as_str(), lower) {
            return Some(k);
        }
        k = k + 1;
    }
    None
}

pub open spec fn as_ints(v: Seq<usize>) -> Seq<int> {
    v.map_values(|i: usize| i as int)
}

fn contains_index(v: &Vec<usize>, x: usize) -> (r: bool)
    ensures
        r == as_ints(v@).contains(x as int),
{
    for i in 0..v.len()
        invariant
            forall|k: int| 0 <= k < i ==> v@[k] != x,
    {
        if v[i] == x {
            assert(as_ints(v@)[i as int] == x as int);
            return true;
        }
    }
    assert forall|k: int| 0 <= k < v@.len() implies #[trigger] as_ints(v@)[k] != x as int by {
        assert(v@[k] != x);
    }
    false
}

/// The package names that already trimmed, lower-cased names ask for.
pub fn select_normalized_packages(names: &Vec<String>) -> (r: Vec<&'static str>)
    ensures
        packages_match(r@, selected_packages(views(names@))),
{
    let ghost ns = views(names@);
    let table = bloatware_candidates();
    let mut r: Vec<&'static str> = Vec::new();
    let mut seen: Vec<usize> = Vec::new();
    for i in 0..names.len()
        invariant
            ns == views(names@),
            table@.len() == bloatware_table().len(),
            forall|j: int| 0 <= j < table@.len() ==> ((#[trigger] table@[j]).0@, table@[j].1@) == bloatware_table()[j],
            packages_match(r@, selected_packages(ns.take(i as int))),
            as_ints(seen@) == selected_packages(ns.take(i as int)),
    {
        assert(ns.take(i + 1).drop_last() == ns.take(i as int));
        assert(ns.take(i + 1).last() == names@[i as int]@);
        let cs = chars_of(names[i].as_str());
        if cs.len() > 0 && is_package_token_text(&cs) {
            if let Some(k) = find_candidate(&table, names[i].as_str()) {
                if !contains_index(&seen, k) {
                    proof {
                        lemma_candidate_in_table(names@[i as int]@, 0);
                    }
                    r.push(table[k].0);
                    seen.push(k);
                    assert(as_ints(seen@) == as_ints(seen@.drop_last()).push(k as int));
                    assert(table@[k as int].0@ == bloatware_table()[k as int].0);
                }
            }
        }
    }
    assert(ns.take(names.len() as int) == ns);
    r
}

proof fn lemma_candidate_in_table(lower: Seq<char>, k: int)
    ensures
        candidate_from(lower, k) matches Some(j) ==> 0 <= j < bloatware_table().len(),
    decreases bloatware_table().len() - k,
{
    if !(k < 0 || k >= bloatware_table().len()) && lower_of(bloatware_table()[k].0) != lower {
        lemma_candidate_in_table(lower, k + 1);
    }
}

/// The candidate packages that `packages` ask for, after trimming and
/// lower-casing each: unknown names, names with other characters than
/// ASCII letters, digits, `.`, `_` and `-`, and repeats are dropped. Fails
/// when nothing was asked for, or nothing valid.
pub fn select_bloatware_packages(packages: &Vec<String>) -> (r: Result<Vec<&'static str>, String>)
    ensures
        packages@.len() == 0 ==> (r matches Err(e) && e@ == "No packages selected"@),
        packages@.len() > 0 ==> {
            let sel = selected_packages(normalized_names(views(packages@)));
            &&& sel.len() == 0 ==> (r matches Err(e) && e@ == "No valid bloatware packages selected"@)
            &&& sel.len() > 0 ==> (r matches Ok(ps) && packages_match(ps@, sel))
        },
{
    if packages.len() == 0 {
        return Err(String::from_str("No packages selected"));
    }
    let names = normalize_names(packages);
    let selected = select_normalized_packages(&names);
    if selected.len() == 0 {
        return Err(String::from_str("No valid bloatware packages selected"));
    }
    Ok(selected)
}

/// A removable package, with whether it is installed.
#[derive(Debug)]
pub struct BloatwareItem {
    pub package_name: String,
    pub label: String,
    pub installed: bool,
}

/// The candidate packages in table order, each marked installed when the
/// lower case of its package name is the lower case of one of `installed`,
/// the names of the installed packages.
pub fn bloatware_items(installed: &Vec<String>) -> (r: Vec<BloatwareItem>)
    ensures
        r@.len() == bloatware_table().len(),
        forall|k: int|
            0 <= k < r@.len() ==> {
                &&& (#[trigger] r@[k]).package_name@ == bloatware_table()[k].0
                &&& r@[k].label@ == bloatware_table()[k].1
                &&& r@[k].installed == lowered(views(installed@)).contains(lower_of(bloatware_table()[k].0))
            },
{
    let installed_lower = lowercase_all(installed);
    let table = bloatware_candidates();
    let mut r: Vec<BloatwareItem> = Vec::new();
    for i in 0..table.len()
        invariant
            views(installed_lower@) == lowered(views(installed@)),
            table@.len() == bloatware_table().len(),
            forall|j: int| 0 <= j < table@.len() ==> ((#[trigger] table@[j]).0@, table@[j].1@) == bloatware_table()[j],
            r@.len() == i,
            forall|k: int|
                0 <= k < i ==> {
                    &&& (#[trigger] r@[k]).package_name@ == bloatware_table()[k].0
                    &&& r@[k].label@ == bloatware_table()[k].1
                    &&& r@[k].installed == lowered(views(installed@)).contains(lower_of(bloatware_table()[k].0))
                },
    {
        let (package, label) = table[i];
        assert(table@[i as int].0@ == bloatware_table()[i as int].0);
        let lower = lowercase(package);
        let installed = contains_string(&installed_lower, lower.as_str());
        r.push(BloatwareItem {
            package_name: String::from_str(package),
            label: String::from_str(label),
            installed,
        });
    }
    r
}

/// Each name in lower case.
pub open spec fn lowered(names: Seq<Seq<char>>) -> Seq<Seq<char>> {
    names.map_values(|n: Seq<char>| lower_of(n))
}

fn lowercase_all(names: &Vec<String>) -> (r: Vec<String>)
    ensures
        views(r@) == lowered(views(names@)),
{
    let mut r: Vec<String> = Vec::new();
    for i in 0..names.len()
        invariant
            r@.len() == i,
            forall|k: int| 0 <= k < i ==> (#[trigger] r@[k])@ == lower_of(names@[k]@),
    {
        r.push(lowercase(names[i].as_str()));
    }
    assert(views(r@) == lowered(views(names@)));
    r
}

/// `items` ordered by label: no item has a smaller label than one before it.
pub open spec fn sorted_by_label(items: Seq<BloatwareItem>) -> bool {
    forall|i: int, j: int| 0 <= i < j < items.len() ==> !lex_lt(#[trigger] items[j].label@, #[trigger] items[i].label@)
}

/// The same items, ordered by label.
pub fn sort_by_label(items: Vec<BloatwareItem>) -> (r: Vec<BloatwareItem>)
    ensures
        r@.to_multiset() == items@.to_multiset(),
        sorted_by_label(r@),
{
    broadcast use vstd::seq_lib::group_to_multiset_ensures, vstd::multiset::group_multiset_axioms;
    let ghost all = items@;
    let mut rest = items;
    let mut sorted: Vec<BloatwareItem> = Vec::new();
    assert(sorted@.to_multiset() =~= Multiset::empty());
    assert(rest@.to_multiset().add(sorted@.to_multiset()) =~= all.to_multiset());
    while rest.len() > 0
        invariant
            rest@.to_multiset().add(sorted@.to_multiset()) == all.to_multiset(),
            sorted_by_label(sorted@),
        decreases rest@.len(),
    {
        let ghost before = rest@;
        let item = rest.pop().unwrap();
        assert(before == rest@.push(item));
        let mut p: usize = 0;
        while p < sorted.len() && !text_less(item.label.as_str(), sorted[p].label.as_str())
            invariant
                p <= sorted@.len(),
                forall|i: int| 0 <= i < p ==> !lex_lt(item.label@, #[trigger] sorted@[i].label@),
                before == rest@.push(item),
                before.to_multiset().add(sorted@.to_multiset()) == all.to_multiset(),
                sorted_by_label(sorted@),
            decreases sorted@.len() - p,
        {
            p = p + 1;
        }
        let ghost old_sorted = sorted@;
        let ghost it = item;
        sorted.insert(p, item);
        proof {
            vstd::seq_lib::to_multiset_insert(old_sorted, p as int, it);
            vstd::seq_lib::to_multiset_build(rest@, it);
            assert(before.to_multiset() == rest@.to_multiset().insert(it));
            assert(sorted@ == old_sorted.insert(p as int, it));
            assert(sorted@.to_multiset() == old_sorted.to_multiset().insert(it));
            assert(before.to_multiset().add(old_sorted.to_multiset()) == all.to_multiset());
            assert(rest@.to_multiset().add(sorted@.to_multiset()) =~= all.to_multiset());
        }
        assert(sorted_by_label(sorted@)) by {
            assert forall|i: int, j: int| 0 <= i < j < sorted@.len() implies !lex_lt(
                #[trigger] sorted@[j].label@,
                #[trigger] sorted@[i].label@,
            ) by {
                if j == p {
                    assert(sorted@[i] == old_sorted[i]);
                } else if i == p {
                    let q = j - 1;
                    assert(sorted@[j] == old_sorted[q]);
                    assert(p < old_sorted.len());
                    assert(lex_lt(item.label@, old_sorted[p as int].label@));
                    if lex_lt(old_sorted[q].label@, item.label@) {
                        lemma_lex_lt_transitive(old_sorted[q].label@, item.label@, old_sorted[p as int].label@);
                        if q == p {
                            lemma_lex_lt_irreflexive(old_sorted[q].label@);
                        }
                    }
                } else {
                    let oi = if i < p { i } else { i - 1 };
                    let oj = if j < p { j } else { j - 1 };
                    assert(sorted@[i] == old_sorted[oi]);
                    assert(sorted@[j] == old_sorted[oj]);
                }
            }
        }
    }
    assert(rest@.to_multiset() =~= Multiset::empty()) by {
        assert forall|x: BloatwareItem| rest@.to_multiset().count(x) == 0 by {
            assert(!rest@.contains(x));
        }
    }
    sorted
}

} // verus!
