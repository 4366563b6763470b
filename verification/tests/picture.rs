use pgfplots::axis::plot::Plot2D;
use pgfplots::axis::Axis;
use pgfplots::text::Render;
use pgfplots::{Picture, PictureKey};

// This test is here only to let us know if we added an enum variant
// but we forgot to add unit tests for it
#[test]
fn picture_keys_tested() {
    let picture_key = PictureKey::Custom(String::from(""));
    match picture_key {
        PictureKey::Custom(_) => (),
        _ => unreachable!(),
    }
}

#[test]
fn picture_key_custom_to_string() {
    assert_eq!(
        PictureKey::Custom(String::from("something/random here")).to_string(),
        String::from("something/random here")
    );
}

#[test]
fn picture_new() {
    let picture = Picture::new();
    assert!(picture.axes.is_empty());
    assert!(picture.keys.is_empty());
}

#[test]
fn picture_add_key() {
    let mut picture = Picture::new();
    picture.add_key(PictureKey::Custom(String::from("random")));
    assert_eq!(picture.keys.len(), 1);
    assert_eq!(picture.keys[0].to_string(), String::from("random"));

    picture.add_key(PictureKey::Custom(String::from("random")));
    assert_eq!(picture.keys.len(), 2);
    assert_eq!(picture.keys[0].to_string(), String::from("random"));
    assert_eq!(picture.keys[1].to_string(), String::from("random"));
}

#[test]
fn picture_standalone_string() {
    let picture = Picture::new();
    assert_eq!(
        r#"\documentclass{standalone}
\usepackage{pgfplots}
\begin{document}
\begin{tikzpicture}
\end{tikzpicture}
\end{document}"#,
        picture.standalone_string()
    );
}

#[test]
fn picture_to_string() {
    let mut picture = Picture::new();
    assert_eq!(
        picture.to_string(),
        "\\begin{tikzpicture}\n\\end{tikzpicture}"
    );

    picture.add_key(PictureKey::Custom(String::from("baseline")));
    assert_eq!(
        picture.to_string(),
        "\\begin{tikzpicture}[\n\tbaseline,\n]\n\\end{tikzpicture}"
    );

    picture.keys.clear();
    let mut axis = Axis::new();
    picture.axes.push(axis.clone());
    assert_eq!(
        picture.to_string(),
        "\\begin{tikzpicture}\n\\begin{axis}\n\\end{axis}\n\\end{tikzpicture}"
    );

    picture.add_key(PictureKey::Custom(String::from("baseline")));
    picture.add_key(PictureKey::Custom(String::from("scale=2")));
    axis.plots.push(Plot2D::new());
    picture.axes.push(axis.clone());
    assert_eq!(picture.to_string(), "\\begin{tikzpicture}[\n\tbaseline,\n\tscale=2,\n]\n\\begin{axis}\n\\end{axis}\n\\begin{axis}\n\t\\addplot[] coordinates {\n\t};\n\\end{axis}\n\\end{tikzpicture}");
}

#[test]
fn picture_from_axis_and_from_plot() {
    let mut axis = Axis::new();
    axis.set_title("T");
    let picture = Picture::from(axis);
    assert!(picture.keys.is_empty());
    assert_eq!(picture.axes.len(), 1);
    assert_eq!(
        picture.to_string(),
        "\\begin{tikzpicture}\n\\begin{axis}[\n\ttitle={T},\n]\n\\end{axis}\n\\end{tikzpicture}"
    );

    let picture = Picture::from(Plot2D::new());
    assert!(picture.keys.is_empty());
    assert_eq!(picture.axes.len(), 1);
    assert!(picture.axes[0].keys.is_empty());
    assert_eq!(picture.axes[0].plots.len(), 1);
    assert_eq!(
        picture.to_string(),
        "\\begin{tikzpicture}\n\\begin{axis}\n\t\\addplot[] coordinates {\n\t};\n\\end{axis}\n\\end{tikzpicture}"
    );
}

#[test]
fn picture_default_is_empty() {
    let picture = Picture::default();
    assert!(picture.axes.is_empty());
    assert!(picture.keys.is_empty());
    assert_eq!(picture.to_string(), Picture::new().to_string());
}

#[test]
fn picture_without_keys_has_no_brackets() {
    let mut picture = Picture::new();
    picture.axes.push(Axis::new());
    picture.axes.push(Axis::new());
    let text = picture.to_string();
    assert!(text.starts_with("\\begin{tikzpicture}\n"));
    assert!(!text.contains('['));
    assert!(!text.contains(']'));
}

#[test]
fn picture_custom_keys_are_all_rendered() {
    let mut picture = Picture::new();
    picture.add_key(PictureKey::Custom(String::from("baseline")));
    picture.add_key(PictureKey::Custom(String::from("baseline")));
    assert_eq!(
        picture.to_string(),
        "\\begin{tikzpicture}[\n\tbaseline,\n\tbaseline,\n]\n\\end{tikzpicture}"
    );
}

#[test]
fn picture_renders_the_same_text_twice() {
    let mut picture = Picture::from(Plot2D::new());
    picture.add_key(PictureKey::Custom(String::from("scale=2")));
    assert_eq!(picture.to_string(), picture.to_string());
    assert_eq!(picture.standalone_string(), picture.standalone_string());
    assert_eq!(
        picture.standalone_string(),
        format!(
            "\\documentclass{{standalone}}\n\\usepackage{{pgfplots}}\n\\begin{{document}}\n{}\n\\end{{document}}",
            picture.to_string()
        )
    );
}
