use super_route_pro::{
    bloatware_candidates, bloatware_items, cache_cleanup_recipe, classify_cleanup_output,
    classify_removal_output, removal_script, select_bloatware_packages, select_cache_targets,
    select_normalized_cache_targets, select_normalized_packages, TaskLog, TaskOutcome,
};

fn strings(items: &[&str]) -> Vec<String> {
    items.iter().map(|s| s.to_string()).collect()
}

#[test]
fn recipes_exist_for_known_caches_only() {
    let (label, script) = cache_cleanup_recipe("user_temp").unwrap();
    assert_eq!(label, "User Temp");
    assert!(script.contains("Write-Output '[OK] User Temp cleaned.'"));
    assert_eq!(cache_cleanup_recipe("d3d_shader_cache").unwrap().0, "DirectX Shader Cache (D3DSCache)");
    assert_eq!(cache_cleanup_recipe("chrome_cache").unwrap().0, "Google Chrome Cache");
    assert!(cache_cleanup_recipe("User_Temp").is_none());
    assert!(cache_cleanup_recipe("system32").is_none());
}

#[test]
fn cache_selection_normalizes_and_dedups() {
    let ts = select_cache_targets(&strings(&[" User_Temp ", "user_temp", "bogus", "", "prefetch", "../etc"])).unwrap();
    let names: Vec<&str> = ts.iter().map(|t| t.name.as_str()).collect();
    assert_eq!(names, vec!["user_temp", "prefetch"]);
    assert_eq!(ts[1].label, "Prefetch");
    let ts = select_normalized_cache_targets(&strings(&["wer_reports", "WER_REPORTS"]));
    assert_eq!(ts.len(), 1);
}

#[test]
fn cache_selection_errors() {
    assert_eq!(select_cache_targets(&Vec::new()).unwrap_err(), "No cache targets selected");
    assert_eq!(select_cache_targets(&strings(&["nope", " "])).unwrap_err(), "No valid cache targets selected");
}

#[test]
fn package_selection_uses_canonical_names() {
    let ps = select_bloatware_packages(&strings(&[" microsoft.bingnews ", "Microsoft.BingNews", "MicrosoftTeams", "rm -rf", "Unknown.App"])).unwrap();
    assert_eq!(ps, vec!["Microsoft.BingNews", "MicrosoftTeams"]);
    let ps = select_normalized_packages(&strings(&["clipchamp.clipchamp", "microsoft.windowscommunicationsapps"]));
    assert_eq!(ps, vec!["Clipchamp.Clipchamp", "microsoft.windowscommunicationsapps"]);
}

#[test]
fn package_selection_errors() {
    assert_eq!(select_bloatware_packages(&Vec::new()).unwrap_err(), "No packages selected");
    assert_eq!(select_bloatware_packages(&strings(&["notepad", ""])).unwrap_err(), "No valid bloatware packages selected");
}

#[test]
fn candidate_items_mark_installed_packages() {
    assert_eq!(bloatware_candidates().len(), 29);
    let items = bloatware_items(&strings(&["microsoft.bingweather", "MicrosoftTeams"]));
    assert_eq!(items.len(), 29);
    let weather = items.iter().find(|i| i.package_name == "Microsoft.BingWeather").unwrap();
    assert!(weather.installed);
    assert_eq!(weather.label, "Microsoft Weather");
    let news = items.iter().find(|i| i.package_name == "Microsoft.BingNews").unwrap();
    assert!(!news.installed);
    assert_eq!(items.iter().filter(|i| i.installed).count(), 2);
}

#[test]
fn removal_script_embeds_escaped_name() {
    let s = removal_script("O'Brien.App");
    assert!(s.starts_with("\n$pkgName = 'O''Brien.App'\n$hasFailure = $false\n"));
    assert!(s.contains("Where-Object { $_.Name -eq $pkgName }"));
    assert!(s.ends_with("Write-Output \"[SKIP] $pkgName not installed\"\n}\n"));
}

#[test]
fn outputs_are_classified() {
    assert_eq!(classify_cleanup_output("[OK] done"), TaskOutcome::Done);
    assert_eq!(classify_cleanup_output("[FAIL] x"), TaskOutcome::Failed);
    assert_eq!(classify_removal_output("[OK] a\n[FAIL] b"), TaskOutcome::Failed);
    assert_eq!(classify_removal_output("[OK] a removed"), TaskOutcome::Done);
    assert_eq!(classify_removal_output("[WARN] a"), TaskOutcome::Skipped);
}

#[test]
fn cleanup_log_reports_each_target() {
    let mut log = TaskLog::for_cleanup(3);
    log.record_cleanup("User Temp", Ok("  [OK] User Temp cleaned.  \r\nsecond line   \r\n".to_string()));
    log.record_cleanup("Prefetch", Ok("   ".to_string()));
    log.record_cleanup("WebCache", Err(" access denied \n".to_string()));
    let r = log.finish_cleanup();
    assert!(!r.success);
    let expected = "Requested cleanup for 3 cache target(s).\n\
Administrative privileges may be required for some targets.\n\
\n\
[TARGET] User Temp\n\
[OK] User Temp cleaned.\n\
second line\n\
\n\
[TARGET] Prefetch\n\
[OK] Prefetch cleaned.\n\
\n\
[TARGET] WebCache\n\
[FAIL] WebCache cleanup error: access denied\n\
\n\
Summary: success=2 failed=1";
    assert_eq!(r.output, expected);
}

#[test]
fn removal_log_reports_each_package() {
    let mut log = TaskLog::for_removal(4);
    log.record_removal("A", Ok("[OK] A removed installed=1 provisioned=0\n".to_string()));
    log.record_removal("B", Ok("[SKIP] B not installed".to_string()));
    log.record_removal("C", Ok("".to_string()));
    log.record_removal("D", Ok("[FAIL] D installed remove error: busy".to_string()));
    let r = log.finish_removal();
    assert!(!r.success);
    let expected = "Requested removal for 4 package(s).\n\
Administrative privileges may be required for removal.\n\
\n\
[OK] A removed installed=1 provisioned=0\n\
\n\
[SKIP] B not installed\n\
\n\
[SKIP] C no output returned\n\
\n\
[FAIL] D installed remove error: busy\n\
\n\
Summary: removed=1 skipped=2 failed=1";
    assert_eq!(r.output, expected);

    let mut ok = TaskLog::for_removal(1);
    ok.record_removal("E", Err("cannot start".to_string()));
    let r = ok.finish_removal();
    assert!(!r.success);
    assert!(r.output.contains("[FAIL] E command execution failed: cannot start\n"));
    let r = TaskLog::for_removal(0).finish_removal();
    assert!(r.success);
}
