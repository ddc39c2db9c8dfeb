//! The generated preamble: a fixed-order table of imports and bindings
//! selected by the component kinds present in the document, the guide
//! object literal when one was built, all between delimiters.
use vstd::prelude::*;
use vstd::string::*;

use crate::text::{push_line, strings_view};

verus! {

/// Which component kinds appeared anywhere in the document; insertion
/// order is irrelevant, so one flag per kind.
#[derive(Clone, Copy, Debug, PartialEq, Eq, Structural)]
pub struct ComponentKinds {
    pub code_fragment: bool,
    pub how_to: bool,
    pub gatsby_not_maintained: bool,
    pub image: bool,
    pub poll: bool,
    pub questions: bool,
    pub tweet: bool,
    pub video: bool,
}

impl ComponentKinds {
    /// No component kind seen yet.
    pub fn new() -> (r: ComponentKinds)
        ensures
            r == (ComponentKinds {
                code_fragment: false,
                how_to: false,
                gatsby_not_maintained: false,
                image: false,
                poll: false,
                questions: false,
                tweet: false,
                video: false,
            }),
    {
        ComponentKinds {
            code_fragment: false,
            how_to: false,
            gatsby_not_maintained: false,
            image: false,
            poll: false,
            questions: false,
            tweet: false,
            video: false,
        }
    }
}

/// Whether the preamble defines the page slug constant and the data-fetch
/// bindings.
pub open spec fn spec_defines_slug(k: ComponentKinds) -> bool {
    k.how_to || k.image || k.poll || k.video
}

/// The generated preamble lines for a kind set, prepared guide markup and
/// slug: a fixed-order table of conditional imports, the slug and
/// data-fetch bindings when a kind needs page-level data, the prepared
/// markup, all between delimiters. Byte-identical for equal inputs.
pub open spec fn spec_astro_frontmatter(
    k: ComponentKinds,
    prepared: Seq<Seq<char>>,
    slug: Seq<char>,
) -> Seq<Seq<char>> {
    seq!["---"@] + spec_fm_imports(k, slug) + spec_fm_bindings(k, slug) + prepared + seq![
        "---\n"@,
    ]
}

/// The import half of the preamble table.
pub open spec fn spec_fm_imports(k: ComponentKinds, slug: Seq<char>) -> Seq<Seq<char>> {
    spec_fm_imports_a(k) + spec_fm_imports_b(k, slug)
}

/// The import table up to the image import.
pub open spec fn spec_fm_imports_a(k: ComponentKinds) -> Seq<Seq<char>> {
    (if k.code_fragment {
        seq!["import CodeFragment from '~components/CodeFragment.svelte';"@]
    } else {
        Seq::empty()
    }) + seq!["import Heading from '~components/Heading.svelte';"@] + (if k.how_to {
        seq![
            "import HowTo from '~components/HowTo/index.svelte';\nimport HowToSection from '~components/HowTo/HowToSection.svelte';\nimport HowToStep from '~components/HowTo/HowToStep.svelte';\nimport HowToDirection from '~components/HowTo/HowToDirection.svelte';"@,
        ]
    } else {
        Seq::empty()
    }) + (if k.gatsby_not_maintained {
        seq!["import GatsbyNotMaintained from '~components/BlogPost/GatsbyNotMaintained.svelte';"@]
    } else {
        Seq::empty()
    }) + (if k.image || k.video || k.tweet {
        seq!["import { getEntry } from 'astro:content';"@]
    } else {
        Seq::empty()
    }) + (if k.image {
        seq!["import Image from '~components/BlogPost/Image.svelte';"@]
    } else {
        Seq::empty()
    })
}

/// The import table from the link-icon import on.
pub open spec fn spec_fm_imports_b(k: ComponentKinds, slug: Seq<char>) -> Seq<Seq<char>> {
    seq![
        "import LinkIcon from '~components/Icons/Link.svelte';\nimport InlineCodeFragment from '~components/InlineCodeFragment.svelte';"@,
    ] + (if k.poll {
        seq!["import Poll from '~components/Poll.svelte';"@]
    } else {
        Seq::empty()
    }) + (if k.image {
        seq!["import type { NebulaPicture, PostPagePictures } from '~types/image';"@]
    } else if k.video {
        seq!["import type { PostPagePictures } from '~types/image';"@]
    } else {
        Seq::empty()
    }) + (if k.questions {
        seq![
            "import Questions from '~components/Questions.svelte';"@,
            "import questions from '~content-raw/blog/"@ + slug + "/questions.json';"@,
        ]
    } else {
        Seq::empty()
    }) + (if k.tweet {
        seq!["import Tweet from '~components/Tweet.svelte';"@]
    } else {
        Seq::empty()
    }) + seq!["import TwitterMessageLink from '~components/Link/TwitterMessageLink.svelte';"@] + (
    if k.video {
        seq!["import Video from '~components/Video.svelte';"@]
    } else {
        Seq::empty()
    })
}

/// The binding half of the preamble table.
pub open spec fn spec_fm_bindings(k: ComponentKinds, slug: Seq<char>) -> Seq<Seq<char>> {
    seq![
        "import website from '~configuration/website';"@,
        "\nconst { newsletterUrl } = website;"@,
    ] + (if spec_defines_slug(k) {
        seq!["const slug = '"@ + slug + "';"@] + (if k.image && k.video {
            seq![
                "const postImagesContentCollectionEntry = await getEntry('post-images', slug);\nconst {\n  data: { pagePictures, pictures },\n}: { data: { pagePictures: PostPagePictures; pictures: NebulaPicture[] } } =\n  postImagesContentCollectionEntry;\nconst {\n  poster: { src: poster },\n} = pagePictures;"@,
                "const imageProps = pictures.map((element, index) => ({\n  index,\n  ...element,\n  slug,\n}));"@,
            ]
        } else if k.image {
            seq![
                "const postImagesContentCollectionEntry = await getEntry('post-images', slug);\nconst {\n  data: { pictures },\n}: { data: { pictures: NebulaPicture[] } } = postImagesContentCollectionEntry;"@,
                "const imageProps = pictures.map((element, index) => ({\n  index,\n  ...element,\n  slug,\n}));"@,
            ]
        } else if k.video {
            seq![
                "const postImagesContentCollectionEntry = await getEntry('post-images', slug);\nconst {\n  data: { pagePictures },\n}: { data: { pagePictures: PostPagePictures; } } =\n  postImagesContentCollectionEntry;\nconst {\n  poster: { src: poster },\n} = pagePictures;"@,
            ]
        } else {
            Seq::empty()
        })
    } else {
        Seq::empty()
    }) + (if k.tweet {
        seq![
            "const pageImagesContentCollectionEntry = await getEntry('page-images', 'blog');\nconst {\n  data: { pagePictures: blogPagePictures },\n}: { data: { pagePictures: PostPagePictures } } = pageImagesContentCollectionEntry;\nconst {\n  twitterAvatar: { src: avatarSrc, placeholder: avatarPlaceholder },\n} = blogPagePictures;"@,
        ]
    } else {
        Seq::empty()
    })
}

/// Emits the import half of the preamble table.
#[verifier::rlimit(100)]
#[verifier::spinoff_prover]
fn emit_fm_imports(out: &mut Vec<String>, components: &ComponentKinds, slug: &str)
    ensures
        strings_view(final(out)@) == strings_view(old(out)@) + spec_fm_imports(
            *components,
            slug@,
        ),
{
    emit_fm_imports_a(out, components);
    emit_fm_imports_b(out, components, slug);
    proof {
        assert(strings_view(out@) =~= strings_view(old(out)@) + spec_fm_imports(
            *components,
            slug@,
        ));
    }
}

/// Emits the import table up to the image import.
#[verifier::rlimit(100)]
#[verifier::spinoff_prover]
fn emit_fm_imports_a(out: &mut Vec<String>, components: &ComponentKinds)
    ensures
        strings_view(final(out)@) == strings_view(old(out)@) + spec_fm_imports_a(*components),
{
    let ghost mut acc: Seq<Seq<char>> = strings_view(out@);
    if components.code_fragment {
        push_line(out, "import CodeFragment from '~components/CodeFragment.svelte';");
        proof {
            acc = acc + seq!["import CodeFragment from '~components/CodeFragment.svelte';"@];
        }
        assert(strings_view(out@) =~= acc);
    }
    push_line(out, "import Heading from '~components/Heading.svelte';");
    proof {
        acc = acc + seq!["import Heading from '~components/Heading.svelte';"@];
    }
    assert(strings_view(out@) =~= acc);
    if components.how_to {
        push_line(
            out,
            "import HowTo from '~components/HowTo/index.svelte';\nimport HowToSection from '~components/HowTo/HowToSection.svelte';\nimport HowToStep from '~components/HowTo/HowToStep.svelte';\nimport HowToDirection from '~components/HowTo/HowToDirection.svelte';",
        );
        proof {
            acc = acc + seq![
                "import HowTo from '~components/HowTo/index.svelte';\nimport HowToSection from '~components/HowTo/HowToSection.svelte';\nimport HowToStep from '~components/HowTo/HowToStep.svelte';\nimport HowToDirection from '~components/HowTo/HowToDirection.svelte';"@,
            ];
        }
        assert(strings_view(out@) =~= acc);
    }
    if components.gatsby_not_maintained {
        push_line(
            out,
            "import GatsbyNotMaintained from '~components/BlogPost/GatsbyNotMaintained.svelte';",
        );
        proof {
            acc = acc + seq![
                "import GatsbyNotMaintained from '~components/BlogPost/GatsbyNotMaintained.svelte';"@,
            ];
        }
        assert(strings_view(out@) =~= acc);
    }
    if components.image || components.video || components.tweet {
        push_line(out, "import { getEntry } from 'astro:content';");
        proof {
            acc = acc + seq!["import { getEntry } from 'astro:content';"@];
        }
        assert(strings_view(out@) =~= acc);
    }
    if components.image {
        push_line(out, "import Image from '~components/BlogPost/Image.svelte';");
        proof {
            acc = acc + seq!["import Image from '~components/BlogPost/Image.svelte';"@];
        }
        assert(strings_view(out@) =~= acc);
    }
    proof {
        assert(acc =~= strings_view(old(out)@) + spec_fm_imports_a(*components));
    }
}

/// Emits the import table from the link-icon import on.
#[verifier::rlimit(100)]
#[verifier::spinoff_prover]
fn emit_fm_imports_b(out: &mut Vec<String>, components: &ComponentKinds, slug: &str)
    ensures
        strings_view(final(out)@) == strings_view(old(out)@) + spec_fm_imports_b(
            *components,
            slug@,
        ),
{
    let ghost mut acc: Seq<Seq<char>> = strings_view(out@);
    push_line(
        out,
        "import LinkIcon from '~components/Icons/Link.svelte';\nimport InlineCodeFragment from '~components/InlineCodeFragment.svelte';",
    );
    proof {
        acc = acc + seq![
            "import LinkIcon from '~components/Icons/Link.svelte';\nimport InlineCodeFragment from '~components/InlineCodeFragment.svelte';"@,
        ];
    }
    assert(strings_view(out@) =~= acc);
    if components.poll {
        push_line(out, "import Poll from '~components/Poll.svelte';");
        proof {
            acc = acc + seq!["import Poll from '~components/Poll.svelte';"@];
        }
        assert(strings_view(out@) =~= acc);
    }
    if components.image {
        push_line(out, "import type { NebulaPicture, PostPagePictures } from '~types/image';");
        proof {
            acc = acc + seq![
                "import type { NebulaPicture, PostPagePictures } from '~types/image';"@,
            ];
        }
        assert(strings_view(out@) =~= acc);
    } else if components.video {
        push_line(out, "import type { PostPagePictures } from '~types/image';");
        proof {
            acc = acc + seq!["import type { PostPagePictures } from '~types/image';"@];
        }
        assert(strings_view(out@) =~= acc);
    }
    if components.questions {
        push_line(out, "import Questions from '~components/Questions.svelte';");
        let mut l = String::new();
        l.append("import questions from '~content-raw/blog/");
        l.append(slug);
        l.append("/questions.json';");
        push_line(out, l.as_str());
        proof {
            acc = acc + seq![
                "import Questions from '~components/Questions.svelte';"@,
                "import questions from '~content-raw/blog/"@ + slug@ + "/questions.json';"@,
            ];
        }
        assert(strings_view(out@) =~= acc);
    }
    if components.tweet {
        push_line(out, "import Tweet from '~components/Tweet.svelte';");
        proof {
            acc = acc + seq!["import Tweet from '~components/Tweet.svelte';"@];
        }
        assert(strings_view(out@) =~= acc);
    }
    push_line(
        out,
        "import TwitterMessageLink from '~components/Link/TwitterMessageLink.svelte';",
    );
    proof {
        acc = acc + seq![
            "import TwitterMessageLink from '~components/Link/TwitterMessageLink.svelte';"@,
        ];
    }
    assert(strings_view(out@) =~= acc);
    if components.video {
        push_line(out, "import Video from '~components/Video.svelte';");
        proof {
            acc = acc + seq!["import Video from '~components/Video.svelte';"@];
        }
        assert(strings_view(out@) =~= acc);
    }
    proof {
        assert(acc =~= strings_view(old(out)@) + spec_fm_imports_b(*components, slug@));
    }
}

/// Emits the binding half of the preamble table.
#[verifier::rlimit(100)]
#[verifier::spinoff_prover]
fn emit_fm_bindings(out: &mut Vec<String>, components: &ComponentKinds, slug: &str)
    ensures
        strings_view(final(out)@) == strings_view(old(out)@) + spec_fm_bindings(
            *components,
            slug@,
        ),
{
    let ghost mut acc: Seq<Seq<char>> = strings_view(out@);
    push_line(out, "import website from '~configuration/website';");
    push_line(out, "\nconst { newsletterUrl } = website;");
    proof {
        acc = acc + seq![
            "import website from '~configuration/website';"@,
            "\nconst { newsletterUrl } = website;"@,
        ];
    }
    assert(strings_view(out@) =~= acc);
    let define_slug = components.how_to || components.image || components.poll
        || components.video;
    if define_slug {
        let mut l = String::new();
        l.append("const slug = '");
        l.append(slug);
        l.append("';");
        push_line(out, l.as_str());
        proof {
            acc = acc + seq!["const slug = '"@ + slug@ + "';"@];
        }
        assert(strings_view(out@) =~= acc);
        if components.image && components.video {
            push_line(
                out,
                "const postImagesContentCollectionEntry = await getEntry('post-images', slug);\nconst {\n  data: { pagePictures, pictures },\n}: { data: { pagePictures: PostPagePictures; pictures: NebulaPicture[] } } =\n  postImagesContentCollectionEntry;\nconst {\n  poster: { src: poster },\n} = pagePictures;",
            );
            push_line(
                out,
                "const imageProps = pictures.map((element, index) => ({\n  index,\n  ...element,\n  slug,\n}));",
            );
            proof {
                acc = acc + seq![
                    "const postImagesContentCollectionEntry = await getEntry('post-images', slug);\nconst {\n  data: { pagePictures, pictures },\n}: { data: { pagePictures: PostPagePictures; pictures: NebulaPicture[] } } =\n  postImagesContentCollectionEntry;\nconst {\n  poster: { src: poster },\n} = pagePictures;"@,
                    "const imageProps = pictures.map((element, index) => ({\n  index,\n  ...element,\n  slug,\n}));"@,
                ];
            }
            assert(strings_view(out@) =~= acc);
        } else if components.image {
            push_line(
                out,
                "const postImagesContentCollectionEntry = await getEntry('post-images', slug);\nconst {\n  data: { pictures },\n}: { data: { pictures: NebulaPicture[] } } = postImagesContentCollectionEntry;",
            );
            push_line(
                out,
                "const imageProps = pictures.map((element, index) => ({\n  index,\n  ...element,\n  slug,\n}));",
            );
            proof {
                acc = acc + seq![
                    "const postImagesContentCollectionEntry = await getEntry('post-images', slug);\nconst {\n  data: { pictures },\n}: { data: { pictures: NebulaPicture[] } } = postImagesContentCollectionEntry;"@,
                    "const imageProps = pictures.map((element, index) => ({\n  index,\n  ...element,\n  slug,\n}));"@,
                ];
            }
            assert(strings_view(out@) =~= acc);
        } else if components.video {
            push_line(
                out,
                "const postImagesContentCollectionEntry = await getEntry('post-images', slug);\nconst {\n  data: { pagePictures },\n}: { data: { pagePictures: PostPagePictures; } } =\n  postImagesContentCollectionEntry;\nconst {\n  poster: { src: poster },\n} = pagePictures;",
            );
            proof {
                acc = acc + seq![
                    "const postImagesContentCollectionEntry = await getEntry('post-images', slug);\nconst {\n  data: { pagePictures },\n}: { data: { pagePictures: PostPagePictures; } } =\n  postImagesContentCollectionEntry;\nconst {\n  poster: { src: poster },\n} = pagePictures;"@,
                ];
            }
            assert(strings_view(out@) =~= acc);
        }
    }
    if components.tweet {
        push_line(
            out,
            "const pageImagesContentCollectionEntry = await getEntry('page-images', 'blog');\nconst {\n  data: { pagePictures: blogPagePictures },\n}: { data: { pagePictures: PostPagePictures } } = pageImagesContentCollectionEntry;\nconst {\n  twitterAvatar: { src: avatarSrc, placeholder: avatarPlaceholder },\n} = blogPagePictures;",
        );
        proof {
            acc = acc + seq![
                "const pageImagesContentCollectionEntry = await getEntry('page-images', 'blog');\nconst {\n  data: { pagePictures: blogPagePictures },\n}: { data: { pagePictures: PostPagePictures } } = pageImagesContentCollectionEntry;\nconst {\n  twitterAvatar: { src: avatarSrc, placeholder: avatarPlaceholder },\n} = blogPagePictures;"@,
            ];
        }
        assert(strings_view(out@) =~= acc);
    }
    proof {
        assert(acc =~= strings_view(old(out)@) + spec_fm_bindings(*components, slug@));
    }
}

/// Forms the generated preamble for the kinds seen, the prepared guide
/// markup and the document slug.
pub fn form_astro_frontmatter(
    components: &ComponentKinds,
    prepared_markup: &Vec<String>,
    slug: &str,
) -> (r: Vec<String>)
    ensures
        strings_view(r@) == spec_astro_frontmatter(
            *components,
            strings_view(prepared_markup@),
            slug@,
        ),
{
    let mut out: Vec<String> = Vec::new();
    push_line(&mut out, "---");
    proof {
        assert(strings_view(out@) =~= seq!["---"@]);
    }
    emit_fm_imports(&mut out, components, slug);
    emit_fm_bindings(&mut out, components, slug);
    let ghost before_prepared = strings_view(out@);
    let n = prepared_markup.len();
    let mut i: usize = 0;
    proof {
        assert(strings_view(out@) =~= before_prepared + strings_view(prepared_markup@).take(0));
    }
    while i < n
        invariant
            i <= n,
            n == prepared_markup@.len(),
            strings_view(out@) == before_prepared + strings_view(prepared_markup@).take(i as int),
        decreases n - i,
    {
        push_line(&mut out, prepared_markup[i].as_str());
        proof {
            assert(before_prepared + strings_view(prepared_markup@).take(i + 1)
                =~= (before_prepared + strings_view(prepared_markup@).take(i as int)).push(
                prepared_markup@[i as int]@,
            ));
        }
        i = i + 1;
    }
    proof {
        assert(strings_view(prepared_markup@).take(n as int) =~= strings_view(prepared_markup@));
    }
    push_line(&mut out, "---\n");
    proof {
        assert(strings_view(out@) =~= spec_astro_frontmatter(
            *components,
            strings_view(prepared_markup@),
            slug@,
        ));
    }
    out
}

} // verus!
