use dotnet_debug::packages::parse_csproj_packages;

#[test]
fn two_references_parse_in_document_order() {
    let content = "<Project Sdk=\"Microsoft.NET.Sdk\">\n  <ItemGroup>\n    <PackageReference Include=\"Newtonsoft.Json\" Version=\"13.0.1\" />\n    <PackageReference Include=\"Serilog\" />\n  </ItemGroup>\n</Project>\n";
    let ps = parse_csproj_packages(content).unwrap();
    assert_eq!(ps.len(), 2);
    assert_eq!(ps[0].id, "Newtonsoft.Json");
    assert_eq!(ps[0].version.as_deref(), Some("13.0.1"));
    assert_eq!(ps[1].id, "Serilog");
    assert_eq!(ps[1].version, None);
}

#[test]
fn explicit_closing_tag_is_accepted() {
    let content = "<PackageReference Include=\"A\" Version=\"1.0\"></PackageReference>";
    let ps = parse_csproj_packages(content).unwrap();
    assert_eq!(ps.len(), 1);
    assert_eq!(ps[0].id, "A");
    assert_eq!(ps[0].version.as_deref(), Some("1.0"));
}

#[test]
fn reference_without_identifier_is_skipped() {
    let content = "<PackageReference Version=\"1.0\" /><PackageReference Include=\"B\" />";
    let ps = parse_csproj_packages(content).unwrap();
    assert_eq!(ps.len(), 1);
    assert_eq!(ps[0].id, "B");
}

#[test]
fn unterminated_reference_fails() {
    let content = "<ItemGroup><PackageReference Include=\"A\" Version=\"1.0\"";
    let e = parse_csproj_packages(content).unwrap_err();
    assert_eq!(e.message(), "Invalid XML: unclosed PackageReference tag");
}

#[test]
fn empty_descriptor_has_no_packages() {
    let ps = parse_csproj_packages("<Project></Project>").unwrap();
    assert!(ps.is_empty());
}

#[test]
fn nearer_terminator_wins() {
    let content = "<PackageReference Include=\"A\"></PackageReference> tail <Other/>";
    let ps = parse_csproj_packages(content).unwrap();
    assert_eq!(ps.len(), 1);
    assert_eq!(ps[0].id, "A");
}
