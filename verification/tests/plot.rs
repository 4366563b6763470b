use pgfplots::axis::plot::color::PredefinedColor;
use pgfplots::axis::plot::{
    Color, ErrorCharacter, ErrorDirection, MarkOption, MarkShape, Marker, Plot2D, PlotKey, Type2D,
};
use pgfplots::number::Number;
use pgfplots::text::Render;

/// The decimal number that a binary floating-point value prints as.
fn num(value: f64) -> Number {
    Number::from_scientific(&format!("{:e}", value)).unwrap()
}

/// The decimal number that a single-precision value prints as.
fn num32(value: f32) -> Number {
    Number::from_scientific(&format!("{:e}", value)).unwrap()
}

#[test]
fn error_direction_to_string() {
    assert_eq!(ErrorDirection::Neither.to_string(), String::from("none"));
    assert_eq!(ErrorDirection::Plus.to_string(), String::from("plus"));
    assert_eq!(ErrorDirection::Minus.to_string(), String::from("minus"));
    assert_eq!(ErrorDirection::Both.to_string(), String::from("both"));
}

#[test]
fn error_character_to_string() {
    assert_eq!(
        ErrorCharacter::Absolute.to_string(),
        String::from("explicit")
    );
    assert_eq!(
        ErrorCharacter::Relative.to_string(),
        String::from("explicit relative")
    );
}

// This test is here only to let us know if we added an enum variant
// but we forgot to add unit tests for it
#[test]
fn plot_type2d_tested() {
    let type_2d = Type2D::OnlyMarks;
    match type_2d {
        Type2D::SharpPlot => (),
        Type2D::Smooth { tension: _ } => (),
        Type2D::ConstLeft => (),
        Type2D::ConstRight => (),
        Type2D::ConstMid => (),
        Type2D::JumpLeft => (),
        Type2D::JumpRight => (),
        Type2D::JumpMid => (),
        Type2D::XBar {
            bar_width: _,
            bar_shift: _,
        } => (),
        Type2D::YBar {
            bar_width: _,
            bar_shift: _,
        } => (),
        Type2D::XComb => (),
        Type2D::YComb => (),
        Type2D::OnlyMarks => (),
        _ => unreachable!(),
    }
}

#[test]
fn type_2d_to_string() {
    assert_eq!(Type2D::SharpPlot.to_string(), String::from("sharp plot"));
    assert_eq!(
        Type2D::Smooth { tension: num(0.55) }.to_string(),
        String::from("smooth, tension=0.55")
    );
    assert_eq!(
        Type2D::ConstLeft.to_string(),
        String::from("const plot mark left")
    );
    assert_eq!(
        Type2D::ConstRight.to_string(),
        String::from("const plot mark right")
    );
    assert_eq!(
        Type2D::ConstMid.to_string(),
        String::from("const plot mark mid")
    );
    assert_eq!(Type2D::JumpLeft.to_string(), String::from("jump mark left"));
    assert_eq!(
        Type2D::JumpRight.to_string(),
        String::from("jump mark right")
    );
    assert_eq!(Type2D::JumpMid.to_string(), String::from("jump mark mid"));
    assert_eq!(
        Type2D::XBar {
            bar_width: num(0.5),
            bar_shift: num(1.0)
        }
        .to_string(),
        String::from("xbar, bar width=0.5, bar shift=1")
    );
    assert_eq!(
        Type2D::XBar {
            bar_shift: num(1.0),
            bar_width: num(0.5)
        }
        .to_string(),
        String::from("xbar, bar width=0.5, bar shift=1")
    );
    assert_eq!(
        Type2D::YBar {
            bar_width: num(0.5),
            bar_shift: num(1.0)
        }
        .to_string(),
        String::from("ybar, bar width=0.5, bar shift=1")
    );
    assert_eq!(
        Type2D::YBar {
            bar_shift: num(1.0),
            bar_width: num(0.5)
        }
        .to_string(),
        String::from("ybar, bar width=0.5, bar shift=1")
    );
    assert_eq!(Type2D::XComb.to_string(), String::from("xcomb"));
    assert_eq!(Type2D::YComb.to_string(), String::from("ycomb"));
    assert_eq!(Type2D::OnlyMarks.to_string(), String::from("only marks"));
}

// This test is here only to let us know if we added an enum variant
// but we forgot to add unit tests for it
#[test]
fn plot_keys_tested() {
    let plot_key = PlotKey::Custom(String::from(""));
    match plot_key {
        PlotKey::Custom(_) => (),
        PlotKey::Type2D(_) => (),
        PlotKey::XError(_) => (),
        PlotKey::XErrorDirection(_) => (),
        PlotKey::YError(_) => (),
        PlotKey::YErrorDirection(_) => (),
        PlotKey::Marker(..) => (),
        _ => unreachable!(),
    }
}

#[test]
fn plot_key_custom_to_string() {
    assert_eq!(
        PlotKey::Custom(String::from("something/random here")).to_string(),
        String::from("something/random here")
    );
}

#[test]
fn plot_key_type_2d_to_string() {
    assert_eq!(
        PlotKey::Type2D(Type2D::SharpPlot).to_string(),
        String::from("sharp plot")
    );
    assert_eq!(
        PlotKey::Type2D(Type2D::ConstLeft).to_string(),
        String::from("const plot mark left")
    );
    assert_eq!(
        PlotKey::Type2D(Type2D::ConstRight).to_string(),
        String::from("const plot mark right")
    );
    assert_eq!(
        PlotKey::Type2D(Type2D::ConstMid).to_string(),
        String::from("const plot mark mid")
    );
    assert_eq!(
        PlotKey::Type2D(Type2D::JumpLeft).to_string(),
        String::from("jump mark left")
    );
    assert_eq!(
        PlotKey::Type2D(Type2D::JumpRight).to_string(),
        String::from("jump mark right")
    );
    assert_eq!(
        PlotKey::Type2D(Type2D::JumpMid).to_string(),
        String::from("jump mark mid")
    );
    assert_eq!(
        PlotKey::Type2D(Type2D::XComb).to_string(),
        String::from("xcomb")
    );
    assert_eq!(
        PlotKey::Type2D(Type2D::YComb).to_string(),
        String::from("ycomb")
    );
    assert_eq!(
        PlotKey::Type2D(Type2D::OnlyMarks).to_string(),
        String::from("only marks")
    );
}

#[test]
fn plot_key_x_error_to_string() {
    assert_eq!(
        PlotKey::XError(ErrorCharacter::Absolute).to_string(),
        String::from("error bars/x explicit")
    );
    assert_eq!(
        PlotKey::XError(ErrorCharacter::Relative).to_string(),
        String::from("error bars/x explicit relative")
    );
}

#[test]
fn plot_key_x_error_direction_to_string() {
    assert_eq!(
        PlotKey::XErrorDirection(ErrorDirection::Neither).to_string(),
        String::from("error bars/x dir=none")
    );
    assert_eq!(
        PlotKey::XErrorDirection(ErrorDirection::Plus).to_string(),
        String::from("error bars/x dir=plus")
    );
    assert_eq!(
        PlotKey::XErrorDirection(ErrorDirection::Minus).to_string(),
        String::from("error bars/x dir=minus")
    );
    assert_eq!(
        PlotKey::XErrorDirection(ErrorDirection::Both).to_string(),
        String::from("error bars/x dir=both")
    );
}

#[test]
fn plot_key_y_error_to_string() {
    assert_eq!(
        PlotKey::YError(ErrorCharacter::Absolute).to_string(),
        String::from("error bars/y explicit")
    );
    assert_eq!(
        PlotKey::YError(ErrorCharacter::Relative).to_string(),
        String::from("error bars/y explicit relative")
    );
}

#[test]
fn plot_key_y_error_direction_to_string() {
    assert_eq!(
        PlotKey::YErrorDirection(ErrorDirection::Neither).to_string(),
        String::from("error bars/y dir=none")
    );
    assert_eq!(
        PlotKey::YErrorDirection(ErrorDirection::Plus).to_string(),
        String::from("error bars/y dir=plus")
    );
    assert_eq!(
        PlotKey::YErrorDirection(ErrorDirection::Minus).to_string(),
        String::from("error bars/y dir=minus")
    );
    assert_eq!(
        PlotKey::YErrorDirection(ErrorDirection::Both).to_string(),
        String::from("error bars/y dir=both")
    );
}

#[test]
fn plot_key_marker_to_string() {
    assert_eq!(
        PlotKey::Marker(Marker::new(MarkShape::O, vec![])).to_string(),
        String::from("mark=o, mark options={}")
    );
    assert_eq!(
        PlotKey::Marker(Marker::new(
            MarkShape::OFilled,
            vec![MarkOption::Fill(PredefinedColor::Blue.into())]
        ))
        .to_string(),
        String::from("mark=*, mark options={fill=blue}")
    );
    assert_eq!(
        PlotKey::Marker(Marker::new(MarkShape::X, vec![MarkOption::Scale(num32(1.5))])).to_string(),
        String::from("mark=x, mark options={scale=1.5}")
    );
    assert_eq!(
        PlotKey::Marker(Marker::new(
            MarkShape::Plus,
            vec![MarkOption::Draw(PredefinedColor::Green.into())]
        ))
        .to_string(),
        String::from("mark=+, mark options={draw=green}")
    );
    assert_eq!(
        PlotKey::Marker(Marker::new(
            MarkShape::Minus,
            vec![
                MarkOption::Fill(PredefinedColor::Blue.into()),
                MarkOption::Scale(num32(2.0))
            ]
        ))
        .to_string(),
        String::from("mark=-, mark options={fill=blue, scale=2}")
    );
    assert_eq!(
        PlotKey::Marker(Marker::new(
            MarkShape::Pipe,
            vec![
                MarkOption::Fill(PredefinedColor::Blue.into()),
                MarkOption::Draw(PredefinedColor::Black.into())
            ]
        ))
        .to_string(),
        String::from("mark=|, mark options={fill=blue, draw=black}")
    );
    assert_eq!(
        PlotKey::Marker(Marker::new(
            MarkShape::Star,
            vec![
                MarkOption::Draw(PredefinedColor::Blue.into()),
                MarkOption::Fill(PredefinedColor::Black.into())
            ]
        ))
        .to_string(),
        String::from("mark=star, mark options={draw=blue, fill=black}")
    );
    assert_eq!(
        PlotKey::Marker(Marker::new(
            MarkShape::OPlus,
            vec![
                MarkOption::Draw(PredefinedColor::Blue.into()),
                MarkOption::Scale(num32(1.5))
            ]
        ))
        .to_string(),
        String::from("mark=oplus, mark options={draw=blue, scale=1.5}")
    );
    assert_eq!(
        PlotKey::Marker(Marker::new(
            MarkShape::OPlusFilled,
            vec![
                MarkOption::Scale(num32(1.5)),
                MarkOption::Draw(PredefinedColor::Blue.into())
            ]
        ))
        .to_string(),
        String::from("mark=oplus*, mark options={scale=1.5, draw=blue}")
    );
    assert_eq!(
        PlotKey::Marker(Marker::new(
            MarkShape::OTimes,
            vec![
                MarkOption::Scale(num32(1.5)),
                MarkOption::Fill(PredefinedColor::Blue.into())
            ]
        ))
        .to_string(),
        String::from("mark=otimes, mark options={scale=1.5, fill=blue}")
    );
    assert_eq!(
        PlotKey::Marker(Marker::new(
            MarkShape::OTimesFilled,
            vec![
                MarkOption::Draw(PredefinedColor::Blue.into()),
                MarkOption::Fill(PredefinedColor::Yellow.into()),
                MarkOption::Scale(num32(1.5))
            ]
        ))
        .to_string(),
        String::from("mark=otimes*, mark options={draw=blue, fill=yellow, scale=1.5}")
    );
    assert_eq!(
        PlotKey::Marker(Marker::new(
            MarkShape::Square,
            vec![
                MarkOption::Draw(PredefinedColor::Blue.into()),
                MarkOption::Scale(num32(1.5)),
                MarkOption::Fill(PredefinedColor::Yellow.into())
            ]
        ))
        .to_string(),
        String::from("mark=square, mark options={draw=blue, scale=1.5, fill=yellow}")
    );
    assert_eq!(
        PlotKey::Marker(Marker::new(
            MarkShape::SquareFilled,
            vec![
                MarkOption::Scale(num32(1.5)),
                MarkOption::Draw(PredefinedColor::Blue.into()),
                MarkOption::Fill(PredefinedColor::Yellow.into())
            ]
        ))
        .to_string(),
        String::from("mark=square*, mark options={scale=1.5, draw=blue, fill=yellow}")
    );
    assert_eq!(
        PlotKey::Marker(Marker::new(
            MarkShape::Triangle,
            vec![
                MarkOption::Scale(num32(1.5)),
                MarkOption::Fill(PredefinedColor::Yellow.into()),
                MarkOption::Draw(PredefinedColor::Blue.into())
            ]
        ))
        .to_string(),
        String::from("mark=triangle, mark options={scale=1.5, fill=yellow, draw=blue}")
    );
    assert_eq!(
        PlotKey::Marker(Marker::new(
            MarkShape::TriangleFilled,
            vec![
                MarkOption::Fill(PredefinedColor::Yellow.into()),
                MarkOption::Scale(num32(1.5)),
                MarkOption::Draw(PredefinedColor::Blue.into())
            ]
        ))
        .to_string(),
        String::from("mark=triangle*, mark options={fill=yellow, scale=1.5, draw=blue}")
    );
    assert_eq!(
        PlotKey::Marker(Marker::new(
            MarkShape::Diamond,
            vec![
                MarkOption::Fill(PredefinedColor::Yellow.into()),
                MarkOption::Draw(PredefinedColor::Blue.into()),
                MarkOption::Scale(num32(1.5))
            ]
        ))
        .to_string(),
        String::from("mark=diamond, mark options={fill=yellow, draw=blue, scale=1.5}")
    );
    assert_eq!(
        PlotKey::Marker(Marker::new(MarkShape::DiamondFilled, vec![])).to_string(),
        String::from("mark=diamond*, mark options={}")
    );
    assert_eq!(
        PlotKey::Marker(Marker::new(MarkShape::Pentagon, vec![])).to_string(),
        String::from("mark=pentagon, mark options={}")
    );
    assert_eq!(
        PlotKey::Marker(Marker::new(MarkShape::PentagonFilled, vec![])).to_string(),
        String::from("mark=pentagon*, mark options={}")
    );
    assert_eq!(
        PlotKey::Marker(Marker::new(MarkShape::Text(String::from("p")), vec![])).to_string(),
        String::from("mark=text, text mark=p, mark options={}")
    );
}

#[test]
fn plot_2d_new() {
    let plot = Plot2D::new();
    assert!(plot.coordinates.is_empty());
    assert!(plot.keys.is_empty());
}

#[test]
fn plot_2d_add_key() {
    let mut plot = Plot2D::new();
    plot.add_key(PlotKey::Type2D(Type2D::SharpPlot));
    assert_eq!(plot.keys.len(), 1);
    assert_eq!(plot.keys[0].to_string(), String::from("sharp plot"));

    plot.add_key(PlotKey::XError(ErrorCharacter::Absolute));
    assert_eq!(plot.keys.len(), 2);
    assert_eq!(plot.keys[0].to_string(), String::from("sharp plot"));
    assert_eq!(
        plot.keys[1].to_string(),
        String::from("error bars/x explicit")
    );

    plot.add_key(PlotKey::Custom(String::from("random")));
    assert_eq!(plot.keys.len(), 3);
    assert_eq!(plot.keys[0].to_string(), String::from("sharp plot"));
    assert_eq!(
        plot.keys[1].to_string(),
        String::from("error bars/x explicit")
    );
    assert_eq!(plot.keys[2].to_string(), String::from("random"));

    plot.add_key(PlotKey::Custom(String::from("random")));
    assert_eq!(plot.keys.len(), 4);
    assert_eq!(plot.keys[0].to_string(), String::from("sharp plot"));
    assert_eq!(
        plot.keys[1].to_string(),
        String::from("error bars/x explicit")
    );
    assert_eq!(plot.keys[2].to_string(), String::from("random"));
    assert_eq!(plot.keys[3].to_string(), String::from("random"));

    plot.add_key(PlotKey::Type2D(Type2D::SharpPlot));
    assert_eq!(plot.keys.len(), 4);
    assert_eq!(
        plot.keys[0].to_string(),
        String::from("error bars/x explicit")
    );
    assert_eq!(plot.keys[1].to_string(), String::from("random"));
    assert_eq!(plot.keys[2].to_string(), String::from("random"));
    assert_eq!(plot.keys[3].to_string(), String::from("sharp plot"));

    plot.add_key(PlotKey::XError(ErrorCharacter::Relative));
    assert_eq!(plot.keys[0].to_string(), String::from("random"));
    assert_eq!(plot.keys[1].to_string(), String::from("random"));
    assert_eq!(plot.keys[2].to_string(), String::from("sharp plot"));
    assert_eq!(
        plot.keys[3].to_string(),
        String::from("error bars/x explicit relative")
    );
}

#[test]
fn plot_2d_to_string() {
    let mut plot = Plot2D::new();
    assert_eq!(plot.to_string(), "\t\\addplot[] coordinates {\n\t};");

    plot.coordinates.push((num(1.0), num(-1.0)).into());
    assert_eq!(
        plot.to_string(),
        "\t\\addplot[] coordinates {\n\t\t(1,-1)\n\t};"
    );

    plot.coordinates.clear();
    plot.add_key(PlotKey::Type2D(Type2D::SharpPlot));
    assert_eq!(
        plot.to_string(),
        "\t\\addplot[\n\t\tsharp plot,\n\t] coordinates {\n\t};"
    );

    plot.add_key(PlotKey::XError(ErrorCharacter::Absolute));
    plot.add_key(PlotKey::XErrorDirection(ErrorDirection::Both));
    plot.coordinates.push((num(1.0), num(-1.0)).into());
    plot.coordinates.push((num(2.0), num(-2.0)).into());
    plot.coordinates.push((num(3.0), num(-3.0)).into());
    assert_eq!(
        plot.to_string(),
        "\t\\addplot[\n\t\tsharp plot,\n\t\terror bars/x explicit,\n\t\terror bars/x dir=both,\n\t] coordinates {\n\t\t(1,-1)\n\t\t(2,-2)\n\t\t(3,-3)\n\t};"
    );
}

#[test]
fn plot_2d_empty_then_one_coordinate() {
    let mut plot = Plot2D::new();
    assert_eq!(plot.to_string(), "\t\\addplot[] coordinates {\n\t};");
    plot.coordinates.push((num(1.0), num(-1.0)).into());
    assert_eq!(
        plot.to_string(),
        "\t\\addplot[] coordinates {\n\t\t(1,-1)\n\t};"
    );
    assert_eq!(plot.to_string().lines().count(), 3);
}

#[test]
fn plot_2d_custom_keys_are_all_rendered() {
    let mut plot = Plot2D::new();
    plot.add_key(PlotKey::Custom(String::from("red")));
    plot.add_key(PlotKey::Custom(String::from("red")));
    assert_eq!(plot.keys.len(), 2);
    assert_eq!(
        plot.to_string(),
        "\t\\addplot[\n\t\tred,\n\t\tred,\n\t] coordinates {\n\t};"
    );
}

#[test]
fn plot_2d_keeps_the_last_key_of_each_variant() {
    let mut plot = Plot2D::new();
    plot.add_key(PlotKey::Type2D(Type2D::SharpPlot));
    plot.add_key(PlotKey::YError(ErrorCharacter::Absolute));
    plot.add_key(PlotKey::Marker(Marker::new(MarkShape::O, vec![])));
    plot.add_key(PlotKey::YErrorDirection(ErrorDirection::Plus));
    plot.add_key(PlotKey::Type2D(Type2D::Smooth { tension: num(0.55) }));
    plot.add_key(PlotKey::Marker(Marker::new(MarkShape::X, vec![])));
    plot.add_key(PlotKey::YErrorDirection(ErrorDirection::Minus));
    plot.add_key(PlotKey::Type2D(Type2D::OnlyMarks));
    let texts: Vec<String> = plot.keys.iter().map(|key| key.to_string()).collect();
    assert_eq!(
        texts,
        vec![
            "error bars/y explicit",
            "mark=x, mark options={}",
            "error bars/y dir=minus",
            "only marks",
        ]
    );
}

#[test]
fn plot_2d_renders_the_same_text_twice() {
    let mut plot = Plot2D::default();
    plot.add_key(PlotKey::Type2D(Type2D::YComb));
    plot.coordinates.push((num(0.5), num(1.5)).into());
    assert_eq!(plot.to_string(), plot.to_string());
}

#[test]
fn type_2d_integral_parameters_print_without_a_point() {
    assert_eq!(
        Type2D::Smooth { tension: num(1.0) }.to_string(),
        "smooth, tension=1"
    );
    assert_eq!(
        Type2D::XBar {
            bar_width: num(0.0),
            bar_shift: num(0.0)
        }
        .to_string(),
        "xbar, bar width=0, bar shift=0"
    );
    assert_eq!(
        Type2D::YBar {
            bar_width: num(2.0),
            bar_shift: num(-0.25)
        }
        .to_string(),
        "ybar, bar width=2, bar shift=-0.25"
    );
}

#[test]
fn mark_shape_to_string() {
    assert_eq!(MarkShape::Asterisk.to_string(), "asterisk");
    assert_eq!(MarkShape::OFilled.to_string(), "*");
    assert_eq!(
        MarkShape::Text(String::from("p")).to_string(),
        "text, text mark=p"
    );
}

#[test]
fn mark_option_to_string() {
    assert_eq!(MarkOption::Scale(num32(0.1)).to_string(), "scale=0.1");
    assert_eq!(MarkOption::XScale(num(2.0)).to_string(), "xscale=2");
    assert_eq!(MarkOption::YScale(num(0.75)).to_string(), "yscale=0.75");
    assert_eq!(
        MarkOption::Fill(PredefinedColor::LightGray.into()).to_string(),
        "fill=lightgray"
    );
    assert_eq!(
        MarkOption::Draw(PredefinedColor::DarkGray.into()).to_string(),
        "draw=darkgray"
    );
}

#[test]
fn marker_options_are_not_deduplicated() {
    let marker = Marker::new(
        MarkShape::Star,
        vec![MarkOption::Scale(num32(1.0)), MarkOption::Scale(num32(2.0))],
    );
    assert_eq!(
        marker.to_string(),
        "mark=star, mark options={scale=1, scale=2}"
    );
}

#[test]
fn marker_with_text_shape_and_no_options() {
    let marker = Marker::new(MarkShape::Text(String::from("p")), vec![]);
    assert_eq!(marker.to_string(), "mark=text, text mark=p, mark options={}");
}

#[test]
fn color_mix_of_two_named_colors() {
    let mix = Color::from_mix(vec![
        (PredefinedColor::Red.into(), 200),
        (PredefinedColor::Blue.into(), 55),
    ]);
    assert_eq!(mix.to_string(), "rgb,255:red,200;blue,55");
}

#[test]
fn color_mix_of_one_or_no_color() {
    assert_eq!(
        Color::from_mix(vec![(PredefinedColor::Teal.into(), 0)]).to_string(),
        "rgb,255:teal,0"
    );
    assert_eq!(Color::from_mix(vec![]).to_string(), "rgb,255:");
}

#[test]
fn color_mix_of_a_mix() {
    let inner = Color::from_mix(vec![(PredefinedColor::Lime.into(), 255)]);
    let outer = Color::from_mix(vec![(inner, 7), (PredefinedColor::Pink.into(), 100)]);
    assert_eq!(outer.to_string(), "rgb,255:rgb,255:lime,255,7;pink,100");
}

#[test]
fn predefined_color_names() {
    let names = [
        (PredefinedColor::Red, "red"),
        (PredefinedColor::Green, "green"),
        (PredefinedColor::Blue, "blue"),
        (PredefinedColor::Cyan, "cyan"),
        (PredefinedColor::Magenta, "magenta"),
        (PredefinedColor::Yellow, "yellow"),
        (PredefinedColor::Black, "black"),
        (PredefinedColor::Gray, "gray"),
        (PredefinedColor::White, "white"),
        (PredefinedColor::DarkGray, "darkgray"),
        (PredefinedColor::LightGray, "lightgray"),
        (PredefinedColor::Brown, "brown"),
        (PredefinedColor::Lime, "lime"),
        (PredefinedColor::Olive, "olive"),
        (PredefinedColor::Orange, "orange"),
        (PredefinedColor::Pink, "pink"),
        (PredefinedColor::Purple, "purple"),
        (PredefinedColor::Teal, "teal"),
        (PredefinedColor::Violet, "violet"),
    ];
    for (color, name) in names {
        assert_eq!(color.to_string(), name);
        assert_eq!(Color::from(color).to_string(), name);
    }
}
