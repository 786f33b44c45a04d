# RGit

A small self-hosted Git forge: clone, fetch and push over HTTP, log-in with one-time
passwords, access settings for each repository, and pages that show READMEs and wikis.

- `src/` is the library, written in Verus. It decides on requests: who may do what,
  what a request is about, what is answered. Each function carries a contract that
  Verus proves, and the functions whose names begin with `law_` prove what holds of the
  library as a whole. What is believed of other crates stands in `src/outside.rs`.
- `tests/` runs the library on concrete values.
- `app/` is the server and the page around it: files, programs, mail and the network.
  It also sets how much of the disk has to be free for a new repository, and how long
  passwords and sessions last.

## Running

```
RGIT_DATA_DIR=./data/repos RGIT_PORT=8090 RGIT_ADMIN_EMAIL=admin@example.com rgit
```

`RGIT_ACCOUNTS_LOCKED=false` lets addresses other than the administrator's become
accounts. `RGIT_SMTP_HOST`, `RGIT_SMTP_PORT`, `RGIT_SMTP_USER`, `RGIT_SMTP_PASSWORD` and
`RGIT_SMTP_FROM` name the mail server that one-time passwords are sent through.
`RGIT_STATIC_DIR` is the directory of the pages under `/ui`.
