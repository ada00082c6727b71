use realtyflow::error::AppError;
use realtyflow::export::{csv_escape, html_escape, render_csv, render_excel_html, render_export_response};

fn s(v: &[&str]) -> Vec<String> {
    v.iter().map(|x| x.to_string()).collect()
}

#[test]
fn csv_escape_quotes_and_doubles_quotes() {
    assert_eq!(csv_escape("plain"), "\"plain\"");
    assert_eq!(csv_escape("say \"hi\", ok"), "\"say \"\"hi\"\", ok\"");
    assert_eq!(csv_escape(""), "\"\"");
}

#[test]
fn html_escape_replaces_markup() {
    assert_eq!(html_escape("<a href=\"x\">&</a>"), "&lt;a href=&quot;x&quot;&gt;&amp;&lt;/a&gt;");
    assert_eq!(html_escape("Дом"), "Дом");
}

#[test]
fn csv_document_lines() {
    let headers = s(&["Объект", "Цена"]);
    let rows = vec![s(&["Дом", "100"]), s(&["a\"b", "1,5"])];
    assert_eq!(
        render_csv(&headers, &rows),
        "\"Объект\",\"Цена\"\r\n\"Дом\",\"100\"\r\n\"a\"\"b\",\"1,5\""
    );
    assert_eq!(render_csv(&[], &[]), "");
}

#[test]
fn excel_document_table() {
    let headers = s(&["A"]);
    let rows = vec![s(&["<1>"])];
    assert_eq!(
        render_excel_html("t&t", &headers, &rows),
        "<!DOCTYPE html><html><head><meta charset=\"utf-8\"><title>t&amp;t</title></head><body><table border=\"1\"><thead><tr><th>A</th></tr></thead><tbody><tr><td>&lt;1&gt;</td></tr></tbody></table></body></html>"
    );
}

#[test]
fn export_formats() {
    let headers = s(&["A"]);
    let rows = vec![s(&["1"])];
    let csv = render_export_response("catalog", &headers, &rows, "csv").ok().unwrap();
    assert_eq!(csv.content_type, "text/csv; charset=utf-8");
    assert_eq!(csv.file_name, "catalog.csv");
    assert_eq!(csv.disposition, "attachment; filename=\"catalog.csv\"");
    assert_eq!(csv.body, "\u{feff}\"A\"\r\n\"1\"");
    let xls = render_export_response("audit", &headers, &rows, "xls").ok().unwrap();
    assert_eq!(xls.content_type, "application/vnd.ms-excel; charset=utf-8");
    assert_eq!(xls.file_name, "audit.xls");
    assert_eq!(xls.body, render_excel_html("audit", &headers, &rows));
    match render_export_response("audit", &headers, &rows, "pdf") {
        Err(AppError::BadRequest(m)) => assert_eq!(m, "Поддерживаются только форматы csv и xls."),
        _ => panic!("pdf must be refused"),
    }
}

fn read_back(field: &str) -> String {
    let inner = &field[1..field.len() - 1];
    inner.replace("\"\"", "\"")
}

#[test]
fn csv_fields_read_back_unchanged() {
    for v in ["", "\"", "a\"\"b", "x,y\r\nz", "\"quoted\"", "Дом \"У реки\""] {
        let f = csv_escape(v);
        assert!(f.starts_with('"') && f.ends_with('"'));
        assert_eq!(read_back(&f), v);
    }
}

#[test]
fn escaped_html_has_no_markup_characters() {
    let e = html_escape("<script>alert(\"x\") & 1 > 0</script>");
    assert!(!e.contains('<') && !e.contains('>') && !e.contains('"'));
}

#[test]
fn excel_document_tag_counts() {
    let headers = vec!["<a>".to_string(), "b".to_string()];
    let rows = vec![vec!["x>y".to_string()], vec![], vec!["1".to_string(), "<2>".to_string(), "3".to_string()]];
    let doc = render_excel_html("<title>", &headers, &rows);
    let expected = 18 + 2 * headers.len() + 2 * rows.len() + 2 * 4;
    assert_eq!(doc.matches('<').count(), expected);
    assert_eq!(doc.matches('>').count(), expected);
    let empty = render_excel_html("", &[], &[]);
    assert_eq!(empty.matches('<').count(), 18);
}

fn read_quoted_csv(text: &str) -> Option<Vec<Vec<String>>> {
    let chars: Vec<char> = text.chars().collect();
    let mut records = Vec::new();
    let mut fields = Vec::new();
    let mut i = 0;
    loop {
        if chars.get(i) != Some(&'"') {
            return None;
        }
        i += 1;
        let mut field = String::new();
        loop {
            match chars.get(i) {
                None => return None,
                Some('"') if chars.get(i + 1) == Some(&'"') => {
                    field.push('"');
                    i += 2;
                }
                Some('"') => {
                    i += 1;
                    break;
                }
                Some(c) => {
                    field.push(*c);
                    i += 1;
                }
            }
        }
        fields.push(field);
        match chars.get(i) {
            None => {
                records.push(fields);
                return Some(records);
            }
            Some(',') => i += 1,
            Some('\r') if chars.get(i + 1) == Some(&'\n') => {
                records.push(std::mem::take(&mut fields));
                i += 2;
            }
            _ => return None,
        }
    }
}

#[test]
fn csv_document_reads_back() {
    let headers = s(&["Имя", "Комментарий"]);
    let rows = vec![
        s(&["a,b", "say \"hi\""]),
        s(&["line\r\nbreak", ""]),
        s(&["\"\"", "x"]),
    ];
    let doc = render_csv(&headers, &rows);
    let mut expected = vec![headers.clone()];
    expected.extend(rows.clone());
    assert_eq!(read_quoted_csv(&doc), Some(expected));
    assert_eq!(render_csv(&[], &[]), "");
}
