//! The fixed text of the HTML report, around the values of one sweep.

use vstd::prelude::*;

verus! {

/// The report up to the scanned folder: head, styles and page header.
pub const REPORT_START: &'static str = r#"<!doctype html>
<html lang="en">
<head>
  <meta charset="utf-8">
  <meta name="viewport" content="width=device-width, initial-scale=1">
  <title>Regex Sweep Report</title>
  <style>
    :root { color: #17211c; background: #f3f5f2; font-family: "Segoe UI", Arial, sans-serif; }
    * { box-sizing: border-box; }
    body { margin: 0; min-width: 320px; background: radial-gradient(circle at 50% -20%, #fff 0, #f4f6f3 43%, #edf0ec 100%); }
    header { position: sticky; top: 0; z-index: 3; border-bottom: 1px solid #dfe4df; background: rgba(255,255,255,.88); backdrop-filter: blur(12px); }
    .bar { max-width: 1240px; margin: 0 auto; padding: 18px 24px; display: flex; align-items: center; justify-content: space-between; gap: 16px; }
    .brand { display: flex; align-items: center; gap: 12px; font-weight: 800; font-size: 18px; letter-spacing: -.03em; }
    .logo { width: 36px; height: 36px; border-radius: 12px; background: #173c28; color: #95f5b8; display: grid; place-items: center; font-size: 24px; line-height: 1; box-shadow: 0 1px 3px rgba(0,0,0,.12); }
    .tag { border: 1px solid #dce3dd; background: #f6f8f6; color: #617067; border-radius: 999px; padding: 3px 8px; font-size: 10px; font-weight: 800; text-transform: uppercase; letter-spacing: .12em; }
    main { max-width: 1240px; margin: 0 auto; padding: 42px 24px 64px; }
    .eyebrow { display: inline-flex; align-items: center; gap: 8px; background: #def8e7; color: #147841; border-radius: 999px; padding: 6px 12px; font-size: 12px; font-weight: 800; }
    h1 { margin: 18px 0 10px; color: #142019; font-size: clamp(34px, 5vw, 54px); line-height: 1; letter-spacing: -.045em; }
    .lede { margin: 0 0 28px; max-width: 760px; color: #667269; font-size: 17px; line-height: 1.6; }
    .panel { overflow: hidden; border: 1px solid #dce2dd; border-radius: 16px; background: white; box-shadow: 0 1px 1px rgba(22,34,27,.04), 0 16px 40px rgba(22,34,27,.06); margin-top: 22px; }
    .summary { display: grid; grid-template-columns: repeat(auto-fit, minmax(170px, 1fr)); border-top: 1px solid #e1e6e2; }
    .metric { padding: 20px; border-right: 1px solid #e8ece8; border-bottom: 1px solid #e8ece8; }
    .metric span { display: block; color: #809086; font-size: 11px; font-weight: 800; text-transform: uppercase; letter-spacing: .12em; }
    .metric strong { display: block; margin-top: 8px; color: #173c28; font-size: 30px; line-height: 1; }
    .details { padding: 20px; display: grid; gap: 14px; }
    .details div { display: grid; gap: 4px; }
    .details span, .controls span { color: #809086; font-size: 11px; font-weight: 800; text-transform: uppercase; letter-spacing: .12em; }
    .details code { color: #263229; background: #f0f3f0; border-radius: 6px; padding: 3px 6px; word-break: break-all; }
    .chips { display: flex; flex-wrap: wrap; gap: 8px; }
    .chip { border: 1px solid #dfe4df; border-radius: 999px; background: #fafbfa; color: #263229; padding: 6px 10px; font-family: ui-monospace, SFMono-Regular, Menlo, monospace; font-size: 12px; }
    .controls { display: grid; grid-template-columns: 1.5fr repeat(3, minmax(150px, .5fr)); gap: 12px; padding: 18px; border-bottom: 1px solid #e4e8e4; background: #fbfcfb; }
    .table-status { padding: 10px 18px; border-bottom: 1px solid #e4e8e4; color: #667269; font-size: 13px; }
    label { display: grid; gap: 6px; }
    input, select { width: 100%; min-height: 42px; border: 1px solid #d9dfda; border-radius: 10px; background: white; padding: 0 12px; color: #17211c; font: inherit; }
    table { width: 100%; border-collapse: collapse; font-size: 14px; }
    th, td { padding: 12px 14px; border-bottom: 1px solid #e8ece8; text-align: left; vertical-align: top; }
    th { position: sticky; top: 73px; z-index: 2; background: #f6f8f6; color: #5e6c63; font-size: 11px; text-transform: uppercase; letter-spacing: .12em; }
    td code { font-family: ui-monospace, SFMono-Regular, Menlo, monospace; font-size: 12px; color: #263229; }
    .path { max-width: 360px; word-break: break-all; }
    .match { max-width: 380px; word-break: break-word; }
    .groups { min-width: 220px; max-width: 340px; }
    .group-list { display: flex; flex-wrap: wrap; gap: 6px; }
    .group-chip { display: inline-flex; gap: 5px; border: 1px solid #dfe4df; border-radius: 6px; background: #fafbfa; padding: 4px 6px; font-family: ui-monospace, SFMono-Regular, Menlo, monospace; font-size: 12px; }
    .group-chip b { color: #667269; }
    .empty { padding: 28px; color: #7b867e; }
    @media (max-width: 820px) {
      .controls { grid-template-columns: 1fr; }
      .bar { align-items: flex-start; flex-direction: column; }
      th { position: static; }
    }
  </style>
</head>
<body>
  <header>
    <div class="bar">
      <div class="brand"><div class="logo">{}</div><span>Regex Sweep</span><span class="tag">Report</span></div>
      <div class="tag">Self-contained HTML</div>
    </div>
  </header>
  <main>
    <span class="eyebrow">Sweep results</span>
    <h1>Sweep files and create a report</h1>
    <p class="lede">A standalone report generated by Regex Sweep with summary metrics and an accessible filterable table of every match.</p>

    <section class="panel">
      <div class="details">
        <div><span>Folder scanned</span><code>"#;

/// The report text after the folder.
pub const REPORT_AFTER_FOLDER: &'static str = r#"</code></div>
        <div><span>Scan date and time</span><code>"#;

/// The report text after the scan date.
pub const REPORT_AFTER_SCAN_DATE: &'static str = r#"</code></div>
        <div><span>Regex or search term</span><div class="chips" id="patterns">"#;

/// The report text after the patterns html.
pub const REPORT_AFTER_PATTERNS_HTML: &'static str = r#"</div></div>
        <div><span>File types affected</span><div class="chips" id="fileTypes">"#;

/// The report text after the file types html.
pub const REPORT_AFTER_FILE_TYPES_HTML: &'static str = r#"</div></div>
        <div><span>Errors or inaccessible files</span><div class="chips" id="errors">"#;

/// The report text after the errors or inaccessible files.
pub const REPORT_AFTER_ERRORS_HTML: &'static str = r#"</div></div>
      </div>
      <div class="summary">
        <div class="metric"><span>Files scanned</span><strong>"#;

/// The report text after the files scanned.
pub const REPORT_AFTER_FILES_SCANNED: &'static str = r#"</strong></div>
        <div class="metric"><span>Affected files</span><strong>"#;

/// The report text after the affected files.
pub const REPORT_AFTER_AFFECTED_FILES: &'static str = r#"</strong></div>
        <div class="metric"><span>Total matches</span><strong>"#;

/// The report text after the total matches.
pub const REPORT_AFTER_TOTAL_MATCHES: &'static str = r#"</strong></div>
        <div class="metric"><span>Errors</span><strong>"#;

/// The report text after the number of errors.
pub const REPORT_AFTER_ERROR_COUNT: &'static str = r#"</strong></div>
      </div>
    </section>

    <section class="panel">
      <div class="controls">
        <label><span>Search table</span><input id="q" placeholder="Filter path, regex, match text, groups..." autocomplete="off" autocapitalize="none" spellcheck="false"></label>
        <label><span>Pattern</span><select id="patternFilter"><option value="">All patterns</option></select></label>
        <label><span>File type</span><select id="typeFilter"><option value="">All file types</option></select></label>
        <label><span>File path</span><select id="pathFilter"><option value="">All affected files</option></select></label>
      </div>
      <div class="table-status" id="tableStatus"></div>
      <div style="overflow:auto">
        <table>
          <thead><tr><th>Path</th><th>Pattern</th><th>Match</th>"#;

/// The report text after the groups header html.
pub const REPORT_AFTER_GROUPS_HEADER_HTML: &'static str = r#"<th>Line</th><th>Columns</th></tr></thead>
          <tbody id="rows">"#;

/// The report text after the rows html.
pub const REPORT_AFTER_ROWS_HTML: &'static str = r#"</tbody>
        </table>
      </div>
      <div class="empty" id="empty" hidden>No rows match the current filters.</div>
    </section>

  </main>

  "#;

/// The opening tag of the script element that holds the matches as JSON.
pub const ROWS_DATA_OPEN: &'static str = r#"<script type="application/json" id="rows-data">"#;

/// The closing tag of a script element.
pub const SCRIPT_CLOSE: &'static str = r#"</script>"#;

/// The text between two script elements.
pub const SCRIPT_GAP: &'static str = r#"
  "#;

/// The opening tag of the script element that holds the file types as JSON.
pub const FILE_TYPES_DATA_OPEN: &'static str = r#"<script type="application/json" id="file-types-data">"#;

/// The opening tag of the script element that holds the patterns as JSON.
pub const PATTERNS_DATA_OPEN: &'static str = r#"<script type="application/json" id="patterns-data">"#;

/// The report text after the patterns json.
pub const REPORT_AFTER_PATTERNS_JSON: &'static str = r#"
  <script>
    const byId = id => document.getElementById(id);
    const rows = JSON.parse(byId('rows-data').textContent);
    const includeCaptureGroups = "#;

/// The closing script and markup, after the capture-group flag.
pub const REPORT_AFTER_INCLUDE_CAPTURE_GROUPS: &'static str = r#";
    const fileTypes = JSON.parse(byId('file-types-data').textContent);
    const patterns = JSON.parse(byId('patterns-data').textContent);
    const extOf = path => {
      const normalized = String(path).split(String.fromCharCode(92)).join('/');
      const name = normalized.split('/').pop() || normalized;
      const index = name.lastIndexOf('.');
      return index > 0 ? name.slice(index).toLowerCase() : 'No extension';
    };
    const escapeHtml = value => String(value).replace(/[&<>"']/g, char => {
      switch (char) {
        case '&': return '&amp;';
        case '<': return '&lt;';
        case '>': return '&gt;';
        case '"': return '&quot;';
        case "'": return '&#39;';
        default: return char;
      }
    });
    const unique = values => [...new Set(values)].sort((a, b) => a.localeCompare(b));
    const addOptions = (select, values) => values.forEach(value => {
      const option = document.createElement('option');
      option.value = value;
      option.textContent = value;
      select.appendChild(option);
    });
    const addChips = (container, values) => {
      container.innerHTML = values.length ? values.map(value => `<span class=\"chip\">${escapeHtml(value)}</span>`).join('') : '<span class=\"chip\">None</span>';
    };
    const groupLabel = group => group.name || `$${group.index}`;
    const groupText = row => (row.captureGroups || []).map(group => `${groupLabel(group)}: ${group.value}`).join(' ');
    const groupsHtml = row => {
      const groups = row.captureGroups || [];
      if (!includeCaptureGroups) return '';
      if (!groups.length) return '<td class=\"groups\"><span class=\"empty\">None</span></td>';
      return `<td class=\"groups\"><div class=\"group-list\">${groups.map(group => `<span class=\"group-chip\"><b>${escapeHtml(groupLabel(group))}</b><span>${escapeHtml(group.value)}</span></span>`).join('')}</div></td>`;
    };
    addChips(byId('patterns'), patterns);
    addChips(byId('fileTypes'), Object.entries(fileTypes).map(([type, count]) => `${type} (${count})`));
    addOptions(byId('patternFilter'), unique(rows.map(row => row.pattern)));
    addOptions(byId('typeFilter'), unique(rows.map(row => extOf(row.path))));
    addOptions(byId('pathFilter'), unique(rows.map(row => row.path)));

    function render() {
      const q = byId('q').value.trim().toLowerCase();
      const pattern = byId('patternFilter').value;
      const type = byId('typeFilter').value;
      const path = byId('pathFilter').value;
      const filtered = rows.filter(row => {
        const haystack = [row.path, row.pattern, row.match, groupText(row), row.line, row.startColumn, row.endColumn].join(' ').toLowerCase();
        return (!q || haystack.includes(q)) &&
          (!pattern || row.pattern === pattern) &&
          (!type || extOf(row.path) === type) &&
          (!path || row.path === path);
      });
      byId('rows').innerHTML = filtered.map(row => `<tr>
        <td class=\"path\"><code>${escapeHtml(row.path)}</code></td>
        <td><code>${escapeHtml(row.pattern)}</code></td>
        <td class=\"match\">${escapeHtml(row.match)}</td>
        ${groupsHtml(row)}
        <td>${row.line}</td>
        <td>${row.startColumn}-${row.endColumn}</td>
      </tr>`).join('');
      byId('tableStatus').textContent = `Showing ${filtered.length} of ${rows.length} matches`;
      byId('empty').hidden = filtered.length !== 0;
    }
    ['q', 'patternFilter', 'typeFilter', 'pathFilter'].forEach(id => {
      byId(id).addEventListener('input', render);
      byId(id).addEventListener('change', render);
    });
    render();
  </script>
</body>
</html>"#;

} // verus!
